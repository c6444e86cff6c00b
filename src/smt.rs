//! The unrolled satisfiability query and its SMT-LIB text.
use vstd::prelude::*;
use crate::builder::{rename_declaration, rename_term, RenamerView, VMTBuilder};
use crate::model::{Action, Variable, VariableView};
use crate::syntax::{
    declaration_text, sort_declaration_text, term_text, write_term, DeclarationView,
    FunctionDeclaration, SortDeclaration, SortDeclarationView, Term, TermView,
};
use crate::text::{push_char, push_text};

verus! {

/// A bounded model checking query under construction: sort declarations,
/// time-indexed declarations, the initial and transition assertions, and the
/// property whose negation is asserted last.
pub struct SMTProblem {
    pub sorts: Vec<SortDeclaration>,
    pub definitions: Vec<FunctionDeclaration>,
    pub init_and_trans_assertions: Vec<Term>,
    pub property_assertion: Option<Term>,
}

pub struct ProblemView {
    pub sorts: Seq<SortDeclarationView>,
    pub definitions: Seq<DeclarationView>,
    pub assertions: Seq<TermView>,
    pub property: Option<TermView>,
}

impl View for SMTProblem {
    type V = ProblemView;

    open spec fn view(&self) -> ProblemView {
        ProblemView {
            sorts: self.sorts@.map_values(|d: SortDeclaration| d@),
            definitions: self.definitions@.map_values(|d: FunctionDeclaration| d@),
            assertions: self.init_and_trans_assertions@.map_values(|t: Term| t@),
            property: match self.property_assertion {
                Some(t) => Some(t@),
                None => None,
            },
        }
    }
}

/// The time-indexed declarations of one step: the current-frame declaration of
/// each state variable, then each action.
pub open spec fn step_definitions(
    r: RenamerView,
    variables: Seq<VariableView>,
    actions: Seq<DeclarationView>,
) -> Seq<DeclarationView> {
    variables.map_values(|v: VariableView| rename_declaration(r, v.current)) + actions.map_values(
        |a: DeclarationView| rename_declaration(r, a),
    )
}

/// The lines of `s` joined with line breaks.
pub open spec fn join_lines(s: Seq<Seq<char>>) -> Seq<char>
    decreases s.len(),
{
    if s.len() == 0 {
        Seq::empty()
    } else if s.len() == 1 {
        s[0]
    } else {
        join_lines(s.drop_last()) + seq!['\n'] + s.last()
    }
}

pub open spec fn assertion_text(t: TermView) -> Seq<char> {
    "(assert "@ + term_text(t) + ")"@
}

pub open spec fn negated_assertion_text(t: TermView) -> Seq<char> {
    "(assert (not "@ + term_text(t) + "))"@
}

/// The text of a query: sorts, declarations, assertions and the negated
/// property, each part a block of lines.
pub open spec fn problem_text(p: ProblemView, property: TermView) -> Seq<char> {
    join_lines(p.sorts.map_values(|d: SortDeclarationView| sort_declaration_text(d))) + seq!['\n']
        + join_lines(p.definitions.map_values(|d: DeclarationView| declaration_text(d))) + seq!['\n']
        + join_lines(p.assertions.map_values(|t: TermView| assertion_text(t))) + seq!['\n']
        + negated_assertion_text(property)
}

proof fn lemma_join_step(s: Seq<Seq<char>>, i: int)
    requires
        0 <= i < s.len(),
    ensures
        join_lines(s.subrange(0, i + 1)) == if i == 0 {
            s[0]
        } else {
            join_lines(s.subrange(0, i)) + seq!['\n'] + s[i]
        },
{
    assert(s.subrange(0, i + 1).drop_last() =~= s.subrange(0, i));
}

impl SMTProblem {
    /// An empty query over the given sorts.
    pub fn new(sorts: &Vec<SortDeclaration>) -> (r: SMTProblem)
        ensures
            r@.sorts == sorts@.map_values(|d: SortDeclaration| d@),
            r@.definitions == Seq::<DeclarationView>::empty(),
            r@.assertions == Seq::<TermView>::empty(),
            r@.property is None,
    {
        let mut copied: Vec<SortDeclaration> = Vec::new();
        for i in 0..sorts.len()
            invariant
                copied@.len() == i,
                forall|j: int| 0 <= j < i ==> (#[trigger] copied@[j])@ == sorts@[j]@,
        {
            copied.push(sorts[i].copy());
        }
        assert(copied@.map_values(|d: SortDeclaration| d@) =~= sorts@.map_values(|d: SortDeclaration| d@));
        let r = SMTProblem {
            sorts: copied,
            definitions: Vec::new(),
            init_and_trans_assertions: Vec::new(),
            property_assertion: None,
        };
        assert(r@.definitions =~= Seq::<DeclarationView>::empty());
        assert(r@.assertions =~= Seq::<TermView>::empty());
        r
    }

    /// The number of initial and transition assertions.
    pub fn init_and_trans_length(&self) -> (r: usize)
        ensures
            r == self@.assertions.len(),
    {
        self.init_and_trans_assertions.len()
    }

    /// Asserts `condition` renamed by `builder`.
    pub fn add_assertion(&mut self, condition: &Term, builder: &VMTBuilder)
        requires
            builder.wf(),
        ensures
            final(self)@.sorts == old(self)@.sorts,
            final(self)@.definitions == old(self)@.definitions,
            final(self)@.assertions == old(self)@.assertions.push(rename_term(builder@, condition@)),
            final(self)@.property == old(self)@.property,
    {
        let rewritten_condition = builder.rewrite_term(condition);
        self.init_and_trans_assertions.push(rewritten_condition);
        assert(self@.assertions =~= old(self)@.assertions.push(rename_term(builder@, condition@)));
    }

    /// Records `condition` renamed by `builder` as the property, whose negation the
    /// query asserts.
    pub fn add_property_assertion(&mut self, condition: &Term, builder: &VMTBuilder)
        requires
            builder.wf(),
        ensures
            final(self)@.sorts == old(self)@.sorts,
            final(self)@.definitions == old(self)@.definitions,
            final(self)@.assertions == old(self)@.assertions,
            final(self)@.property == Some(rename_term(builder@, condition@)),
    {
        let rewritten_property = builder.rewrite_term(condition);
        self.property_assertion = Some(rewritten_property);
    }

    /// Declares the state variables and actions renamed by `builder`.
    pub fn add_definitions(
        &mut self,
        state_variables: &Vec<Variable>,
        actions: &Vec<Action>,
        builder: &VMTBuilder,
    )
        requires
            builder.wf(),
        ensures
            final(self)@.sorts == old(self)@.sorts,
            final(self)@.definitions == old(self)@.definitions + step_definitions(
                builder@,
                state_variables@.map_values(|v: Variable| v@),
                actions@.map_values(|a: Action| a@),
            ),
            final(self)@.assertions == old(self)@.assertions,
            final(self)@.property == old(self)@.property,
    {
        let ghost r = builder@;
        let ghost vs = state_variables@.map_values(|v: Variable| v@);
        let ghost acts = actions@.map_values(|a: Action| a@);
        let ghost start = self@.definitions;
        let ghost expected = start + step_definitions(r, vs, acts);
        let ghost nv = vs.len();
        for i in 0..state_variables.len()
            invariant
                builder.wf(),
                r == builder@,
                vs == state_variables@.map_values(|v: Variable| v@),
                acts == actions@.map_values(|a: Action| a@),
                expected == start + step_definitions(r, vs, acts),
                self@.sorts == old(self)@.sorts,
                self@.assertions == old(self)@.assertions,
                self@.property == old(self)@.property,
                self.definitions@.len() == start.len() + i,
                forall|j: int|
                    0 <= j < start.len() + i ==> (#[trigger] self.definitions@[j])@ == expected[j],
        {
            let d = builder.rewrite_declaration(&state_variables[i].current);
            self.definitions.push(d);
        }
        for i in 0..actions.len()
            invariant
                builder.wf(),
                r == builder@,
                vs == state_variables@.map_values(|v: Variable| v@),
                acts == actions@.map_values(|a: Action| a@),
                expected == start + step_definitions(r, vs, acts),
                self@.sorts == old(self)@.sorts,
                self@.assertions == old(self)@.assertions,
                self@.property == old(self)@.property,
                self.definitions@.len() == start.len() + vs.len() + i,
                forall|j: int|
                    0 <= j < start.len() + vs.len() + i ==> (#[trigger] self.definitions@[j])@
                        == expected[j],
        {
            let d = builder.rewrite_declaration(&actions[i].action_command);
            self.definitions.push(d);
        }
        assert(self@.definitions =~= expected);
    }

    /// The SMT-LIB text of the query.
    pub fn to_smtlib2(&self) -> (r: String)
        requires
            self@.property is Some,
        ensures
            r@ == problem_text(self@, self@.property->0),
    {
        let mut out = String::new();
        let ghost sorts = self@.sorts.map_values(|d: SortDeclarationView| sort_declaration_text(d));
        for i in 0..self.sorts.len()
            invariant
                sorts == self@.sorts.map_values(|d: SortDeclarationView| sort_declaration_text(d)),
                out@ == join_lines(sorts.subrange(0, i as int)),
        {
            proof {
                lemma_join_step(sorts, i as int);
            }
            if i > 0 {
                push_char(&mut out, '\n');
            }
            self.sorts[i].write(&mut out);
            assert(out@ =~= join_lines(sorts.subrange(0, i + 1)));
        }
        assert(sorts.subrange(0, sorts.len() as int) =~= sorts);
        push_char(&mut out, '\n');
        let ghost head = out@;
        let ghost defs = self@.definitions.map_values(|d: DeclarationView| declaration_text(d));
        for i in 0..self.definitions.len()
            invariant
                defs == self@.definitions.map_values(|d: DeclarationView| declaration_text(d)),
                out@ == head + join_lines(defs.subrange(0, i as int)),
        {
            proof {
                lemma_join_step(defs, i as int);
            }
            if i > 0 {
                push_char(&mut out, '\n');
            }
            self.definitions[i].write(&mut out);
            assert(out@ =~= head + join_lines(defs.subrange(0, i + 1)));
        }
        assert(defs.subrange(0, defs.len() as int) =~= defs);
        push_char(&mut out, '\n');
        let ghost head2 = out@;
        let ghost asserts = self@.assertions.map_values(|t: TermView| assertion_text(t));
        for i in 0..self.init_and_trans_assertions.len()
            invariant
                asserts == self@.assertions.map_values(|t: TermView| assertion_text(t)),
                out@ == head2 + join_lines(asserts.subrange(0, i as int)),
        {
            proof {
                lemma_join_step(asserts, i as int);
            }
            if i > 0 {
                push_char(&mut out, '\n');
            }
            push_text(&mut out, "(assert ");
            write_term(&mut out, &self.init_and_trans_assertions[i]);
            push_text(&mut out, ")");
            assert(out@ =~= head2 + join_lines(asserts.subrange(0, i + 1)));
        }
        assert(asserts.subrange(0, asserts.len() as int) =~= asserts);
        push_char(&mut out, '\n');
        let ghost head3 = out@;
        match &self.property_assertion {
            Some(p) => {
                push_text(&mut out, "(assert (not ");
                write_term(&mut out, p);
                push_text(&mut out, "))");
                assert(out@ =~= head3 + negated_assertion_text(p@));
            },
            None => {},
        }
        assert(out@ =~= problem_text(self@, self@.property->0));
        out
    }
}

} // verus!
