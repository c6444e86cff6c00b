//! Renaming of symbols into time-indexed copies, one step of an unrolling at a time.
use vstd::prelude::*;
use crate::syntax::{lemma_terms_view, term_view, terms_view, DeclarationView, FunctionDeclaration, Term, TermView};
use crate::laws::{avoids_frames, lemma_rename_pass_through};
use crate::text::{decimal, push_char, push_decimal};

verus! {

broadcast use vstd::std_specs::vec::axiom_vec_index_decreases, vstd::seq::axiom_seq_index_decreases,
    vstd::seq::axiom_seq_subrange_decreases;

/// Rewrites current-frame symbols `x` to `x@step`, and next-frame symbols `x_next`
/// of a state variable `x` to `x@step+1`; every other symbol stays as it is.
pub struct VMTBuilder {
    /// Names of the state variables and the actions.
    pub current_variables: Vec<String>,
    /// Pairs of a next-frame name and the current-frame name it belongs to.
    pub next_variables: Vec<(String, String)>,
    pub step: u64,
}

pub struct RenamerView {
    pub current: Seq<Seq<char>>,
    pub next: Seq<(Seq<char>, Seq<char>)>,
    pub step: nat,
}

impl View for VMTBuilder {
    type V = RenamerView;

    open spec fn view(&self) -> RenamerView {
        RenamerView {
            current: self.current_variables@.map_values(|s: String| s@),
            next: self.next_variables@.map_values(|p: (String, String)| (p.0@, p.1@)),
            step: self.step as nat,
        }
    }
}

/// The name `name@step`.
pub open spec fn indexed_name(name: Seq<char>, step: nat) -> Seq<char> {
    name + seq!['@'] + decimal(step)
}

/// The current-frame name paired with the next-frame name `s` by the last of the
/// first `i` pairs whose next-frame name is `s`.
pub open spec fn next_frame_lookup(pairs: Seq<(Seq<char>, Seq<char>)>, s: Seq<char>, i: int) -> Option<
    Seq<char>,
>
    decreases i,
{
    if i <= 0 || i > pairs.len() {
        None
    } else if pairs[i - 1].0 == s {
        Some(pairs[i - 1].1)
    } else {
        next_frame_lookup(pairs, s, i - 1)
    }
}

/// The current-frame name that the next-frame name `s` belongs to: where several
/// pairs name `s`, the last one counts.
pub open spec fn next_frame_name(pairs: Seq<(Seq<char>, Seq<char>)>, s: Seq<char>) -> Option<Seq<char>> {
    next_frame_lookup(pairs, s, pairs.len() as int)
}

/// What the renamer `r` makes of the symbol `s`.
pub open spec fn rename_symbol(r: RenamerView, s: Seq<char>) -> Seq<char> {
    if r.current.contains(s) {
        indexed_name(s, r.step)
    } else {
        match next_frame_name(r.next, s) {
            Some(c) => indexed_name(c, r.step + 1),
            None => s,
        }
    }
}

/// The term `t` with every symbol in it renamed by `r`.
pub open spec fn rename_term(r: RenamerView, t: TermView) -> TermView
    decreases t,
{
    match t {
        TermView::Symbol(s) => TermView::Symbol(rename_symbol(r, s)),
        TermView::List(items) => TermView::List(rename_terms(r, items)),
        _ => t,
    }
}

pub open spec fn rename_terms(r: RenamerView, s: Seq<TermView>) -> Seq<TermView>
    decreases s,
{
    if s.len() == 0 {
        Seq::empty()
    } else {
        rename_terms(r, s.drop_last()).push(rename_term(r, s.last()))
    }
}

/// The declaration `d` with every symbol in it renamed by `r`, its own name included.
pub open spec fn rename_declaration(r: RenamerView, d: DeclarationView) -> DeclarationView {
    DeclarationView {
        symbol: rename_symbol(r, d.symbol),
        parameters: rename_terms(r, d.parameters),
        sort: rename_term(r, d.sort),
    }
}

pub proof fn lemma_rename_terms(r: RenamerView, s: Seq<TermView>)
    ensures
        rename_terms(r, s).len() == s.len(),
        forall|i: int| 0 <= i < s.len() ==> #[trigger] rename_terms(r, s)[i] == rename_term(r, s[i]),
    decreases s.len(),
{
    if s.len() > 0 {
        lemma_rename_terms(r, s.drop_last());
    }
}

impl VMTBuilder {
    pub open spec fn wf(&self) -> bool {
        self.step < u64::MAX
    }

    /// Moves the renamer on to the next step.
    pub fn add_step(&mut self)
        requires
            old(self).wf(),
        ensures
            final(self).current_variables@ == old(self).current_variables@,
            final(self).next_variables@ == old(self).next_variables@,
            final(self).step == old(self).step + 1,
    {
        self.step = self.step + 1;
    }

    fn is_current(&self, s: &String) -> (r: bool)
        ensures
            r == self@.current.contains(s@),
    {
        let ghost cur = self@.current;
        let n = self.current_variables.len();
        for i in 0..n
            invariant
                n == self.current_variables.len(),
                cur == self@.current,
                forall|j: int| 0 <= j < i ==> cur[j] != s@,
        {
            if self.current_variables[i] == *s {
                assert(cur[i as int] == s@);
                return true;
            }
        }
        false
    }

    fn lookup_next(&self, s: &String) -> (r: Option<&String>)
        ensures
            match next_frame_name(self@.next, s@) {
                Some(c) => r is Some && r->0@ == c,
                None => r is None,
            },
    {
        let ghost pairs = self@.next;
        let mut i = self.next_variables.len();
        while i > 0
            invariant
                i <= self.next_variables.len(),
                pairs == self@.next,
                next_frame_name(pairs, s@) == next_frame_lookup(pairs, s@, i as int),
            decreases i,
        {
            if self.next_variables[i - 1].0 == *s {
                return Some(&self.next_variables[i - 1].1);
            }
            i = i - 1;
        }
        None
    }

    /// The renaming of one symbol.
    pub fn process_symbol(&self, s: &String) -> (r: String)
        requires
            self.wf(),
        ensures
            r@ == rename_symbol(self@, s@),
    {
        if self.is_current(s) {
            let mut out = s.clone();
            push_char(&mut out, '@');
            push_decimal(&mut out, self.step);
            out
        } else {
            match self.lookup_next(s) {
                Some(c) => {
                    let mut out = c.clone();
                    push_char(&mut out, '@');
                    push_decimal(&mut out, self.step + 1);
                    out
                },
                None => s.clone(),
            }
        }
    }

    /// The term with every symbol in it renamed.
    pub fn rewrite_term(&self, t: &Term) -> (r: Term)
        requires
            self.wf(),
        ensures
            r@ == rename_term(self@, t@),
            avoids_frames(self@, t@) ==> r@ == t@,
        decreases t,
    {
        proof {
            if avoids_frames(self@, t@) {
                lemma_rename_pass_through(self@, t@);
            }
        }
        match t {
            Term::Symbol(s) => Term::Symbol(self.process_symbol(s)),
            Term::List(items) => Term::List(self.rewrite_terms(items)),
            _ => t.copy(),
        }
    }

    fn rewrite_terms(&self, items: &Vec<Term>) -> (r: Vec<Term>)
        requires
            self.wf(),
        ensures
            terms_view(r@) == rename_terms(self@, terms_view(items@)),
        decreases items,
    {
        let mut out: Vec<Term> = Vec::new();
        let n = items.len();
        for i in 0..n
            invariant
                self.wf(),
                n == items.len(),
                out@.len() == i,
                forall|j: int|
                    0 <= j < i ==> #[trigger] term_view(out@[j]) == rename_term(self@, term_view(items@[j])),
        {
            let c = self.rewrite_term(&items[i]);
            out.push(c);
        }
        proof {
            lemma_terms_view(out@);
            lemma_terms_view(items@);
            lemma_rename_terms(self@, terms_view(items@));
            assert(terms_view(out@) =~= rename_terms(self@, terms_view(items@)));
        }
        out
    }

    /// The declaration with every symbol in it renamed, its own name included.
    pub fn rewrite_declaration(&self, d: &FunctionDeclaration) -> (r: FunctionDeclaration)
        requires
            self.wf(),
        ensures
            r@ == rename_declaration(self@, d@),
    {
        FunctionDeclaration {
            symbol: self.process_symbol(&d.symbol),
            parameters: self.rewrite_terms(&d.parameters),
            sort: self.rewrite_term(&d.sort),
        }
    }
}

} // verus!
