//! The SMT-LIB syntax that the transition-system logic reads and writes.
use vstd::prelude::*;
use crate::text::{decimal, push_char, push_decimal, push_text};

verus! {

broadcast use vstd::std_specs::vec::axiom_vec_index_decreases, vstd::seq::axiom_seq_index_decreases,
    vstd::seq::axiom_seq_subrange_decreases;

/// An SMT-LIB term or sort: an atom or a parenthesised list of terms.
pub enum Term {
    /// A literal (numeral, decimal, hexadecimal, binary or string), kept as written.
    Constant(String),
    /// A symbol, without quoting bars unless the name itself holds them.
    Symbol(String),
    /// A keyword, without its leading colon.
    Keyword(String),
    /// A parenthesised list, such as an application `(f a b)`.
    List(Vec<Term>),
}

/// The mathematical value of a [`Term`].
pub enum TermView {
    Constant(Seq<char>),
    Symbol(Seq<char>),
    Keyword(Seq<char>),
    List(Seq<TermView>),
}

pub open spec fn term_view(t: Term) -> TermView
    decreases t,
{
    match t {
        Term::Constant(c) => TermView::Constant(c@),
        Term::Symbol(s) => TermView::Symbol(s@),
        Term::Keyword(k) => TermView::Keyword(k@),
        Term::List(items) => TermView::List(terms_view(items@)),
    }
}

pub open spec fn terms_view(s: Seq<Term>) -> Seq<TermView>
    decreases s,
{
    if s.len() == 0 {
        Seq::empty()
    } else {
        terms_view(s.drop_last()).push(term_view(s.last()))
    }
}

impl View for Term {
    type V = TermView;

    open spec fn view(&self) -> TermView {
        term_view(*self)
    }
}

pub proof fn lemma_terms_view(s: Seq<Term>)
    ensures
        terms_view(s).len() == s.len(),
        forall|i: int| 0 <= i < s.len() ==> #[trigger] terms_view(s)[i] == term_view(s[i]),
    decreases s.len(),
{
    if s.len() > 0 {
        lemma_terms_view(s.drop_last());
    }
}


/// The SMT-LIB text of a term, lists written with single spaces.
pub open spec fn term_text(t: TermView) -> Seq<char>
    decreases t,
{
    match t {
        TermView::Constant(c) => c,
        TermView::Symbol(s) => s,
        TermView::Keyword(k) => seq![':'] + k,
        TermView::List(items) => seq!['('] + list_text(items) + seq![')'],
    }
}

/// The texts of the terms of `s`, separated by single spaces.
pub open spec fn list_text(s: Seq<TermView>) -> Seq<char>
    decreases s,
{
    if s.len() == 0 {
        Seq::empty()
    } else if s.len() == 1 {
        term_text(s[0])
    } else {
        list_text(s.drop_last()) + seq![' '] + term_text(s.last())
    }
}

/// Appends the text of `t` to `out`.
pub fn write_term(out: &mut String, t: &Term)
    ensures
        final(out)@ == old(out)@ + term_text(t@),
    decreases t,
{
    match t {
        Term::Constant(c) => push_text(out, c.as_str()),
        Term::Symbol(s) => push_text(out, s.as_str()),
        Term::Keyword(k) => {
            push_char(out, ':');
            push_text(out, k.as_str());
            assert(out@ =~= old(out)@ + term_text(t@));
        },
        Term::List(items) => {
            push_char(out, '(');
            write_terms(out, items);
            push_char(out, ')');
            assert(out@ =~= old(out)@ + term_text(t@));
        },
    }
}

/// Appends the texts of `items`, separated by single spaces, to `out`.
pub fn write_terms(out: &mut String, items: &Vec<Term>)
    ensures
        final(out)@ == old(out)@ + list_text(terms_view(items@)),
    decreases items,
{
    let ghost v = terms_view(items@);
    proof {
        lemma_terms_view(items@);
    }
    let ghost start = out@;
    let n = items.len();
    for i in 0..n
        invariant
            n == items.len(),
            v == terms_view(items@),
            v.len() == n,
            forall|j: int| 0 <= j < n ==> #[trigger] v[j] == term_view(items@[j]),
            out@ == start + list_text(v.subrange(0, i as int)),
    {
        assert(v.subrange(0, i + 1).drop_last() =~= v.subrange(0, i as int));
        if i > 0 {
            push_char(out, ' ');
        }
        write_term(out, &items[i]);
        assert(out@ =~= start + list_text(v.subrange(0, i + 1)));
    }
    assert(v.subrange(0, n as int) =~= v);
}

impl Term {
    /// An independent copy of the term.
    pub fn copy(&self) -> (r: Term)
        ensures
            r@ == self@,
        decreases self,
    {
        match self {
            Term::Constant(c) => Term::Constant(c.clone()),
            Term::Symbol(s) => Term::Symbol(s.clone()),
            Term::Keyword(k) => Term::Keyword(k.clone()),
            Term::List(items) => Term::List(copy_terms(items)),
        }
    }

    /// The SMT-LIB text of the term.
    pub fn text(&self) -> (r: String)
        ensures
            r@ == term_text(self@),
    {
        let mut out = String::new();
        write_term(&mut out, self);
        assert(out@ =~= term_text(self@));
        out
    }
}

/// An independent copy of each term of `items`.
pub fn copy_terms(items: &Vec<Term>) -> (r: Vec<Term>)
    ensures
        terms_view(r@) == terms_view(items@),
    decreases items,
{
    let mut out: Vec<Term> = Vec::new();
    let n = items.len();
    for i in 0..n
        invariant
            n == items.len(),
            out@.len() == i,
            forall|j: int| 0 <= j < i ==> #[trigger] term_view(out@[j]) == term_view(items@[j]),
    {
        let c = items[i].copy();
        out.push(c);
    }
    proof {
        lemma_terms_view(out@);
        lemma_terms_view(items@);
        assert(terms_view(out@) =~= terms_view(items@));
    }
    out
}

/// `(declare-fun symbol (parameters) sort)`.
pub struct FunctionDeclaration {
    pub symbol: String,
    pub parameters: Vec<Term>,
    pub sort: Term,
}

pub struct DeclarationView {
    pub symbol: Seq<char>,
    pub parameters: Seq<TermView>,
    pub sort: TermView,
}

impl View for FunctionDeclaration {
    type V = DeclarationView;

    open spec fn view(&self) -> DeclarationView {
        DeclarationView {
            symbol: self.symbol@,
            parameters: terms_view(self.parameters@),
            sort: self.sort@,
        }
    }
}

/// `(declare-sort symbol arity)`.
pub struct SortDeclaration {
    pub symbol: String,
    pub arity: u64,
}

pub struct SortDeclarationView {
    pub symbol: Seq<char>,
    pub arity: nat,
}

impl View for SortDeclaration {
    type V = SortDeclarationView;

    open spec fn view(&self) -> SortDeclarationView {
        SortDeclarationView { symbol: self.symbol@, arity: self.arity as nat }
    }
}

/// `(define-fun symbol (parameters) sort term)`, each parameter a `(name sort)` list.
pub struct FunctionDefinition {
    pub symbol: String,
    pub parameters: Vec<Term>,
    pub sort: Term,
    pub term: Term,
}

/// A top-level SMT-LIB command.
pub enum Command {
    DeclareFun(FunctionDeclaration),
    DefineFun(FunctionDefinition),
    DeclareSort(SortDeclaration),
    Assert(Term),
    CheckSat,
}

pub open spec fn declaration_text(d: DeclarationView) -> Seq<char> {
    "(declare-fun "@ + d.symbol + " ("@ + list_text(d.parameters) + ") "@ + term_text(d.sort)
        + ")"@
}

pub open spec fn sort_declaration_text(d: SortDeclarationView) -> Seq<char> {
    "(declare-sort "@ + d.symbol + " "@ + decimal(d.arity) + ")"@
}

impl FunctionDeclaration {
    /// An independent copy of the declaration.
    pub fn copy(&self) -> (r: FunctionDeclaration)
        ensures
            r@ == self@,
    {
        FunctionDeclaration {
            symbol: self.symbol.clone(),
            parameters: copy_terms(&self.parameters),
            sort: self.sort.copy(),
        }
    }

    /// Appends the text of the declaration to `out`.
    pub fn write(&self, out: &mut String)
        ensures
            final(out)@ == old(out)@ + declaration_text(self@),
    {
        push_text(out, "(declare-fun ");
        push_text(out, self.symbol.as_str());
        push_text(out, " (");
        write_terms(out, &self.parameters);
        push_text(out, ") ");
        write_term(out, &self.sort);
        push_text(out, ")");
        assert(out@ =~= old(out)@ + declaration_text(self@));
    }
}

impl SortDeclaration {
    /// An independent copy of the declaration.
    pub fn copy(&self) -> (r: SortDeclaration)
        ensures
            r@ == self@,
    {
        SortDeclaration { symbol: self.symbol.clone(), arity: self.arity }
    }

    /// Appends the text of the declaration to `out`.
    pub fn write(&self, out: &mut String)
        ensures
            final(out)@ == old(out)@ + sort_declaration_text(self@),
    {
        push_text(out, "(declare-sort ");
        push_text(out, self.symbol.as_str());
        push_text(out, " ");
        push_decimal(out, self.arity);
        push_text(out, ")");
        assert(out@ =~= old(out)@ + sort_declaration_text(self@));
    }
}

pub struct DefinitionView {
    pub symbol: Seq<char>,
    pub parameters: Seq<TermView>,
    pub sort: TermView,
    pub term: TermView,
}

impl View for FunctionDefinition {
    type V = DefinitionView;

    open spec fn view(&self) -> DefinitionView {
        DefinitionView {
            symbol: self.symbol@,
            parameters: terms_view(self.parameters@),
            sort: self.sort@,
            term: self.term@,
        }
    }
}

pub enum CommandView {
    DeclareFun(DeclarationView),
    DefineFun(DefinitionView),
    DeclareSort(SortDeclarationView),
    Assert(TermView),
    CheckSat,
}

impl View for Command {
    type V = CommandView;

    open spec fn view(&self) -> CommandView {
        match self {
            Command::DeclareFun(d) => CommandView::DeclareFun(d@),
            Command::DefineFun(d) => CommandView::DefineFun(d@),
            Command::DeclareSort(d) => CommandView::DeclareSort(d@),
            Command::Assert(t) => CommandView::Assert(t@),
            Command::CheckSat => CommandView::CheckSat,
        }
    }
}

/// Whether `s` has the characters of `lit`.
pub fn has_text(s: &String, lit: &str) -> (r: bool)
    ensures
        r == (s@ == lit@),
{
    *s == lit.to_owned()
}

/// The parts of a term `(! term :keyword)` or `(! term :keyword value)` that
/// carries exactly one attribute: the term, the keyword and the value, if any.
pub open spec fn single_attribute(t: TermView) -> Option<(TermView, Seq<char>, Option<TermView>)> {
    match t {
        TermView::List(items) => {
            if items.len() >= 3 && items[0] == TermView::Symbol("!"@) && items[2] is Keyword {
                if items.len() == 3 {
                    Some((items[1], items[2]->Keyword_0, None))
                } else if items.len() == 4 && items[3] !is Keyword {
                    Some((items[1], items[2]->Keyword_0, Some(items[3])))
                } else {
                    None
                }
            } else {
                None
            }
        },
        _ => None,
    }
}

/// The parts of a term that carries exactly one attribute, as [`single_attribute`] gives them.
pub fn get_single_attribute(t: &Term) -> (r: Option<(&Term, &String, Option<&Term>)>)
    ensures
        match single_attribute(t@) {
            Some((a, k, v)) => r matches Some((ra, rk, rv)) && ra@ == a && rk@ == k && match v {
                Some(x) => rv matches Some(rx) && rx@ == x,
                None => rv is None,
            },
            None => r is None,
        },
{
    match t {
        Term::List(items) => {
            proof {
                lemma_terms_view(items@);
            }
            if items.len() < 3 {
                return None;
            }
            let bang = match &items[0] {
                Term::Symbol(s) => has_text(s, "!"),
                _ => false,
            };
            if !bang {
                return None;
            }
            match &items[2] {
                Term::Keyword(k) => {
                    if items.len() == 3 {
                        Some((&items[1], k, None))
                    } else if items.len() == 4 {
                        match &items[3] {
                            Term::Keyword(_) => None,
                            _ => Some((&items[1], k, Some(&items[3]))),
                        }
                    } else {
                        None
                    }
                },
                _ => None,
            }
        },
        _ => None,
    }
}

} // verus!
