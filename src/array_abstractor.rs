//! Abstraction of the array theory into an uninterpreted sort with uninterpreted
//! read, write and constant-array functions.
use vstd::prelude::*;
use crate::laws::{array_free, lemma_abstract_pass_through};
use crate::model::{ModelView, VMTModel, Variable, VariableView, Action};
use crate::syntax::{
    has_text, lemma_terms_view, term_text, term_view, terms_view, DeclarationView,
    FunctionDeclaration, SortDeclaration, Term, TermView, copy_terms,
};

verus! {

broadcast use vstd::std_specs::vec::axiom_vec_index_decreases, vstd::seq::axiom_seq_index_decreases,
    vstd::seq::axiom_seq_subrange_decreases;

pub const ARRAY_SORT: &'static str = "Array";

pub const INT: &'static str = "Int";

pub const SELECT: &'static str = "select";

pub const STORE: &'static str = "store";

pub const AS: &'static str = "as";

pub const CONST: &'static str = "const";

/// The one array shape that the abstraction supports: integers to integers.
pub const ABSTRACT_ARRAY_SORT: &'static str = "Array-Int-Int";

pub const ABSTRACT_READ: &'static str = "Read-Int-Int";

pub const ABSTRACT_WRITE: &'static str = "Write-Int-Int";

pub const ABSTRACT_CONST_ARRAY: &'static str = "ConstArr-Int-Int";

/// Whether a sort is the supported array sort `(Array Int Int)`; arrays of
/// other shapes are left as they are.
pub open spec fn is_array_sort(s: TermView) -> bool {
    s == TermView::List(
        seq![TermView::Symbol(ARRAY_SORT@), TermView::Symbol(INT@), TermView::Symbol(INT@)],
    )
}

/// Whether a term is the constant-array ascription `(as const (Array Int Int))`.
pub open spec fn is_const_ascription(t: TermView) -> bool {
    t matches TermView::List(items) && items.len() == 3 && items[0] == TermView::Symbol(AS@)
        && items[1] == TermView::Symbol(CONST@) && is_array_sort(items[2])
}

/// Whether a term, in the head of an application, names an array operation.
pub open spec fn is_array_operation(h: TermView) -> bool {
    h == TermView::Symbol(SELECT@) || h == TermView::Symbol(STORE@) || is_const_ascription(h)
}

/// The head of an application with the array operations replaced.
pub open spec fn abstract_head(h: TermView) -> TermView {
    if h == TermView::Symbol(SELECT@) {
        TermView::Symbol(ABSTRACT_READ@)
    } else if h == TermView::Symbol(STORE@) {
        TermView::Symbol(ABSTRACT_WRITE@)
    } else if is_const_ascription(h) {
        TermView::Symbol(ABSTRACT_CONST_ARRAY@)
    } else {
        h
    }
}

/// The term with the array operations in the heads of its applications replaced.
pub open spec fn abstract_term(t: TermView) -> TermView
    decreases t,
{
    match t {
        TermView::List(items) => {
            let inner = abstract_terms(items);
            if inner.len() > 0 {
                TermView::List(inner.update(0, abstract_head(inner[0])))
            } else {
                TermView::List(inner)
            }
        },
        _ => t,
    }
}

pub open spec fn abstract_terms(s: Seq<TermView>) -> Seq<TermView>
    decreases s,
{
    if s.len() == 0 {
        Seq::empty()
    } else {
        abstract_terms(s.drop_last()).push(abstract_term(s.last()))
    }
}

pub proof fn lemma_abstract_terms(s: Seq<TermView>)
    ensures
        abstract_terms(s).len() == s.len(),
        forall|i: int| 0 <= i < s.len() ==> #[trigger] abstract_terms(s)[i] == abstract_term(s[i]),
    decreases s.len(),
{
    if s.len() > 0 {
        lemma_abstract_terms(s.drop_last());
    }
}

/// The declaration with an array sort replaced by the abstract array sort.
pub open spec fn abstract_declaration(d: DeclarationView) -> DeclarationView {
    DeclarationView {
        symbol: d.symbol,
        parameters: d.parameters,
        sort: if is_array_sort(d.sort) {
            TermView::Symbol(ABSTRACT_ARRAY_SORT@)
        } else {
            d.sort
        },
    }
}

/// The system with its declarations and conditions abstracted.
pub open spec fn abstract_model(m: ModelView) -> ModelView {
    ModelView {
        sorts: m.sorts,
        variables: m.variables.map_values(
            |v: VariableView|
                VariableView {
                    current: abstract_declaration(v.current),
                    next: abstract_declaration(v.next),
                },
        ),
        actions: m.actions.map_values(|a: DeclarationView| abstract_declaration(a)),
        init: abstract_term(m.init),
        trans: abstract_term(m.trans),
        prop: abstract_term(m.prop),
    }
}

/// Whether a term is an array sort other than `(Array Int Int)`.
pub open spec fn is_other_array_sort(t: TermView) -> bool {
    t matches TermView::List(items) && items.len() > 0 && items[0] == TermView::Symbol(ARRAY_SORT@)
        && !is_array_sort(t)
}

/// Whether every array sort in `t` is `(Array Int Int)`.
pub open spec fn single_shape(t: TermView) -> bool
    decreases t,
{
    match t {
        TermView::List(items) => !is_other_array_sort(t) && all_single_shape(items),
        _ => true,
    }
}

pub open spec fn all_single_shape(s: Seq<TermView>) -> bool
    decreases s,
{
    s.len() == 0 || (all_single_shape(s.drop_last()) && single_shape(s.last()))
}

pub proof fn lemma_all_single_shape(s: Seq<TermView>)
    ensures
        all_single_shape(s) <==> forall|i: int| 0 <= i < s.len() ==> single_shape(#[trigger] s[i]),
    decreases s.len(),
{
    if s.len() > 0 {
        lemma_all_single_shape(s.drop_last());
        if forall|i: int| 0 <= i < s.len() ==> single_shape(#[trigger] s[i]) {
            assert forall|i: int| 0 <= i < s.len() - 1 implies single_shape(#[trigger] s.drop_last()[i]) by {
                assert(single_shape(s[i]));
            }
        }
        if all_single_shape(s) {
            assert forall|i: int| 0 <= i < s.len() implies single_shape(#[trigger] s[i]) by {
                if i < s.len() - 1 {
                    assert(s.drop_last()[i] == s[i]);
                }
            }
        }
    }
}

pub open spec fn declaration_single_shape(d: DeclarationView) -> bool {
    single_shape(d.sort) && all_single_shape(d.parameters)
}

/// Whether every array sort in the system's declarations and conditions is
/// `(Array Int Int)`, the one shape that the abstraction supports.
pub open spec fn model_single_shape(m: ModelView) -> bool {
    &&& forall|i: int|
        0 <= i < m.variables.len() ==> declaration_single_shape((#[trigger] m.variables[i]).current)
            && declaration_single_shape(m.variables[i].next)
    &&& forall|i: int| 0 <= i < m.actions.len() ==> declaration_single_shape(#[trigger] m.actions[i])
    &&& single_shape(m.init)
    &&& single_shape(m.trans)
    &&& single_shape(m.prop)
}

/// The system abstracted where it uses arrays of the supported shape only, and
/// the system unchanged otherwise.
pub open spec fn abstracted(m: ModelView) -> ModelView {
    if model_single_shape(m) {
        abstract_model(m)
    } else {
        m
    }
}

/// The set `s` with the text of `d`'s sort added, if that is the array sort.
pub open spec fn record_sort(s: Set<Seq<char>>, d: DeclarationView) -> Set<Seq<char>> {
    if is_array_sort(d.sort) {
        s.insert(term_text(d.sort))
    } else {
        s
    }
}

/// The set `s` with the array sorts of the variables' declarations added.
pub open spec fn record_variable_sorts(s: Set<Seq<char>>, vs: Seq<VariableView>) -> Set<Seq<char>>
    decreases vs.len(),
{
    if vs.len() == 0 {
        s
    } else {
        record_sort(record_sort(record_variable_sorts(s, vs.drop_last()), vs.last().current), vs.last().next)
    }
}

/// The set `s` with the array sorts of the declarations added.
pub open spec fn record_declaration_sorts(s: Set<Seq<char>>, ds: Seq<DeclarationView>) -> Set<Seq<char>>
    decreases ds.len(),
{
    if ds.len() == 0 {
        s
    } else {
        record_sort(record_declaration_sorts(s, ds.drop_last()), ds.last())
    }
}

/// Rewrites array sorts and array operations into their abstract counterparts,
/// recording the text of each array sort it replaced.
pub struct ArrayAbstractor {
    pub array_types: Vec<String>,
}

impl View for ArrayAbstractor {
    type V = Set<Seq<char>>;

    open spec fn view(&self) -> Set<Seq<char>> {
        self.array_types@.map_values(|s: String| s@).to_set()
    }
}

fn is_symbol(t: &Term, name: &str) -> (r: bool)
    ensures
        r == (t@ == TermView::Symbol(name@)),
{
    match t {
        Term::Symbol(s) => has_text(s, name),
        _ => false,
    }
}

fn is_array_sort_exec(t: &Term) -> (r: bool)
    ensures
        r == is_array_sort(t@),
{
    match t {
        Term::List(items) => {
            proof {
                lemma_terms_view(items@);
            }
            let r = items.len() == 3 && is_symbol(&items[0], ARRAY_SORT) && is_symbol(&items[1], INT)
                && is_symbol(&items[2], INT);
            if r {
                assert(terms_view(items@) =~= seq![
                    TermView::Symbol(ARRAY_SORT@),
                    TermView::Symbol(INT@),
                    TermView::Symbol(INT@),
                ]);
            }
            r
        },
        _ => false,
    }
}

fn single_shape_exec(t: &Term) -> (r: bool)
    ensures
        r == single_shape(t@),
    decreases t,
{
    match t {
        Term::List(items) => {
            proof {
                lemma_terms_view(items@);
            }
            let other = items.len() > 0 && is_symbol(&items[0], ARRAY_SORT) && !is_array_sort_exec(t);
            !other && all_single_shape_exec(items)
        },
        _ => true,
    }
}

fn all_single_shape_exec(items: &Vec<Term>) -> (r: bool)
    ensures
        r == all_single_shape(terms_view(items@)),
    decreases items,
{
    let ghost iv = terms_view(items@);
    proof {
        lemma_terms_view(items@);
        lemma_all_single_shape(iv);
    }
    for i in 0..items.len()
        invariant
            iv == terms_view(items@),
            iv.len() == items.len(),
            forall|j: int| 0 <= j < iv.len() ==> #[trigger] iv[j] == term_view(items@[j]),
            all_single_shape(iv) <==> forall|j: int| 0 <= j < iv.len() ==> single_shape(#[trigger] iv[j]),
            forall|j: int| 0 <= j < i ==> single_shape(#[trigger] iv[j]),
    {
        if !single_shape_exec(&items[i]) {
            assert(!single_shape(iv[i as int]));
            return false;
        }
    }
    true
}

fn declaration_single_shape_exec(d: &FunctionDeclaration) -> (r: bool)
    ensures
        r == declaration_single_shape(d@),
{
    single_shape_exec(&d.sort) && all_single_shape_exec(&d.parameters)
}

fn model_single_shape_exec(model: &VMTModel) -> (r: bool)
    ensures
        r == model_single_shape(model@),
{
    let ghost m = model@;
    for i in 0..model.state_variables.len()
        invariant
            m == model@,
            forall|j: int|
                0 <= j < i ==> declaration_single_shape((#[trigger] m.variables[j]).current)
                    && declaration_single_shape(m.variables[j].next),
    {
        if !declaration_single_shape_exec(&model.state_variables[i].current)
            || !declaration_single_shape_exec(&model.state_variables[i].next) {
            assert(!(declaration_single_shape(m.variables[i as int].current) && declaration_single_shape(
                m.variables[i as int].next,
            )));
            return false;
        }
    }
    for i in 0..model.actions.len()
        invariant
            m == model@,
            forall|j: int| 0 <= j < i ==> declaration_single_shape(#[trigger] m.actions[j]),
    {
        if !declaration_single_shape_exec(&model.actions[i].action_command) {
            assert(!declaration_single_shape(m.actions[i as int]));
            return false;
        }
    }
    single_shape_exec(&model.initial_condition) && single_shape_exec(&model.transition_condition)
        && single_shape_exec(&model.property_condition)
}

fn abstract_head_exec(h: Term) -> (r: Term)
    ensures
        r@ == abstract_head(h@),
{
    if is_symbol(&h, SELECT) {
        Term::Symbol(ABSTRACT_READ.to_owned())
    } else if is_symbol(&h, STORE) {
        Term::Symbol(ABSTRACT_WRITE.to_owned())
    } else {
        let ascription = match &h {
            Term::List(items) => {
                proof {
                    lemma_terms_view(items@);
                }
                items.len() == 3 && is_symbol(&items[0], AS) && is_symbol(&items[1], CONST)
                    && is_array_sort_exec(&items[2])
            },
            _ => false,
        };
        if ascription {
            Term::Symbol(ABSTRACT_CONST_ARRAY.to_owned())
        } else {
            h
        }
    }
}

impl ArrayAbstractor {
    pub fn new() -> (r: ArrayAbstractor)
        ensures
            r@ == Set::<Seq<char>>::empty(),
    {
        let r = ArrayAbstractor { array_types: Vec::new() };
        assert(r@ =~= Set::<Seq<char>>::empty());
        r
    }

    /// Records the text of an array sort.
    pub fn add_array_type(&mut self, array_type: String)
        ensures
            final(self)@ == old(self)@.insert(array_type@),
    {
        let ghost old_names = self.array_types@.map_values(|s: String| s@);
        let mut found = false;
        for i in 0..self.array_types.len()
            invariant
                found ==> old_names.contains(array_type@),
                old_names == self.array_types@.map_values(|s: String| s@),
        {
            if self.array_types[i] == array_type {
                assert(old_names[i as int] == array_type@);
                found = true;
            }
        }
        if found {
            assert(self@ =~= old(self)@.insert(array_type@));
        } else {
            self.array_types.push(array_type);
            let ghost names = self.array_types@.map_values(|s: String| s@);
            assert(names =~= old_names.push(array_type@));
            assert forall|x: Seq<char>| names.contains(x) <==> old_names.contains(x) || x == array_type@ by {
                if names.contains(x) {
                    let j = choose|j: int| 0 <= j < names.len() && names[j] == x;
                    if j < old_names.len() {
                        assert(old_names[j] == x);
                    }
                }
                if old_names.contains(x) {
                    let j = choose|j: int| 0 <= j < old_names.len() && old_names[j] == x;
                    assert(names[j] == x);
                }
                if x == array_type@ {
                    assert(names[old_names.len() as int] == x);
                }
            }
            assert(self@ =~= old(self)@.insert(array_type@));
        }
    }

    /// The declaration with an array sort replaced by the abstract array sort.
    pub fn visit_declare_fun(&mut self, d: &FunctionDeclaration) -> (r: FunctionDeclaration)
        ensures
            r@ == abstract_declaration(d@),
            final(self)@ == record_sort(old(self)@, d@),
    {
        let array = is_array_sort_exec(&d.sort);
        let sort = if array {
            self.add_array_type(d.sort.text());
            Term::Symbol(ABSTRACT_ARRAY_SORT.to_owned())
        } else {
            d.sort.copy()
        };
        FunctionDeclaration { symbol: d.symbol.clone(), parameters: copy_terms(&d.parameters), sort }
    }

    /// The term with the array operations in the heads of its applications replaced.
    pub fn visit_term(&self, t: &Term) -> (r: Term)
        ensures
            r@ == abstract_term(t@),
            array_free(t@) ==> r@ == t@,
        decreases t,
    {
        proof {
            if array_free(t@) {
                lemma_abstract_pass_through(t@);
            }
        }
        match t {
            Term::List(items) => Term::List(self.visit_application(items)),
            _ => t.copy(),
        }
    }

    /// The items of a list, each abstracted, with the head's array operation replaced.
    pub fn visit_application(&self, items: &Vec<Term>) -> (r: Vec<Term>)
        ensures
            array_free(TermView::List(terms_view(items@))) ==> terms_view(r@) == terms_view(items@),
            terms_view(r@) == (if items@.len() > 0 {
                abstract_terms(terms_view(items@)).update(
                    0,
                    abstract_head(abstract_terms(terms_view(items@))[0]),
                )
            } else {
                abstract_terms(terms_view(items@))
            }),
        decreases items,
    {
        proof {
            if array_free(TermView::List(terms_view(items@))) {
                lemma_abstract_pass_through(TermView::List(terms_view(items@)));
            }
        }
        let mut out: Vec<Term> = Vec::new();
        let n = items.len();
        let ghost iv = terms_view(items@);
        proof {
            lemma_terms_view(items@);
            lemma_abstract_terms(iv);
        }
        let ghost inner = abstract_terms(iv);
        for i in 0..n
            invariant
                n == items.len(),
                iv == terms_view(items@),
                iv.len() == n,
                forall|j: int| 0 <= j < n ==> #[trigger] iv[j] == term_view(items@[j]),
                inner == abstract_terms(iv),
                inner.len() == n,
                forall|j: int| 0 <= j < n ==> #[trigger] inner[j] == abstract_term(iv[j]),
                out@.len() == i,
                forall|j: int|
                    0 <= j < i ==> #[trigger] term_view(out@[j]) == if j == 0 {
                        abstract_head(inner[0])
                    } else {
                        inner[j]
                    },
        {
            let c = self.visit_term(&items[i]);
            if i == 0 {
                out.push(abstract_head_exec(c));
            } else {
                out.push(c);
            }
        }
        proof {
            lemma_terms_view(out@);
            if n > 0 {
                assert(terms_view(out@) =~= inner.update(0, abstract_head(inner[0])));
            } else {
                assert(terms_view(out@) =~= inner);
            }
        }
        out
    }

    /// The system abstracted, where every array sort in it is `(Array Int Int)`;
    /// otherwise a copy of the system, with nothing recorded.
    pub fn abstract_model(&mut self, model: &VMTModel) -> (r: VMTModel)
        ensures
            r@ == abstracted(model@),
            final(self)@ == if model_single_shape(model@) {
                record_declaration_sorts(record_variable_sorts(old(self)@, model@.variables), model@.actions)
            } else {
                old(self)@
            },
    {
        if model_single_shape_exec(model) {
            self.abstract_all(model)
        } else {
            model.copy()
        }
    }

    /// The system with its declarations and conditions abstracted.
    #[verifier::rlimit(40)]
    fn abstract_all(&mut self, model: &VMTModel) -> (r: VMTModel)
        ensures
            r@ == abstract_model(model@),
            final(self)@ == record_declaration_sorts(
                record_variable_sorts(old(self)@, model@.variables),
                model@.actions,
            ),
    {
        let ghost m = model@;
        let mut state_variables: Vec<Variable> = Vec::new();
        for i in 0..model.state_variables.len()
            invariant
                m == model@,
                self@ == record_variable_sorts(old(self)@, m.variables.subrange(0, i as int)),
                state_variables@.len() == i,
                forall|j: int|
                    0 <= j < i ==> (#[trigger] state_variables@[j])@ == abstract_model(m).variables[j],
        {
            let current = self.visit_declare_fun(&model.state_variables[i].current);
            let next = self.visit_declare_fun(&model.state_variables[i].next);
            state_variables.push(Variable { current, next });
            assert(m.variables.subrange(0, i + 1).drop_last() =~= m.variables.subrange(0, i as int));
        }
        assert(m.variables.subrange(0, m.variables.len() as int) =~= m.variables);
        let ghost mid = self@;
        let mut actions: Vec<Action> = Vec::new();
        for i in 0..model.actions.len()
            invariant
                m == model@,
                self@ == record_declaration_sorts(mid, m.actions.subrange(0, i as int)),
                actions@.len() == i,
                forall|j: int|
                    0 <= j < i ==> (#[trigger] actions@[j])@ == abstract_model(m).actions[j],
        {
            let a = self.visit_declare_fun(&model.actions[i].action_command);
            actions.push(Action { action_command: a });
            assert(m.actions.subrange(0, i + 1).drop_last() =~= m.actions.subrange(0, i as int));
        }
        assert(m.actions.subrange(0, m.actions.len() as int) =~= m.actions);
        let mut sorts: Vec<SortDeclaration> = Vec::new();
        for i in 0..model.sorts.len()
            invariant
                m == model@,
                sorts@.len() == i,
                forall|j: int| 0 <= j < i ==> (#[trigger] sorts@[j])@ == m.sorts[j],
        {
            sorts.push(model.sorts[i].copy());
        }
        let r = VMTModel {
            sorts,
            state_variables,
            actions,
            initial_condition: self.visit_term(&model.initial_condition),
            transition_condition: self.visit_term(&model.transition_condition),
            property_condition: self.visit_term(&model.property_condition),
        };
        assert(r@.sorts =~= abstract_model(m).sorts);
        assert(r@.variables =~= abstract_model(m).variables);
        assert(r@.actions =~= abstract_model(m).actions);
        r
    }
}

impl VMTModel {
    /// A copy of the system with the array theory abstracted into uninterpreted
    /// sorts and functions.
    pub fn abstract_array_theory(&self) -> (r: VMTModel)
        ensures
            r@ == abstracted(self@),
            self.wf() ==> r.wf(),
    {
        let mut abstractor = ArrayAbstractor::new();
        abstractor.abstract_model(self)
    }
}

} // verus!
