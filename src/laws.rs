//! Laws that relate the extraction, renaming, unrolling and abstraction functions.
use vstd::prelude::*;
use crate::array_abstractor::{
    abstract_head, abstracted, model_single_shape, abstract_term, abstract_terms,
    is_array_operation, is_array_sort, lemma_abstract_terms, ABSTRACT_CONST_ARRAY,
    ABSTRACT_READ, ABSTRACT_WRITE, SELECT, STORE,
};
use crate::builder::{
    indexed_name, lemma_rename_terms, next_frame_lookup, next_frame_name, rename_symbol, rename_term, rename_terms,
    RenamerView,
};
use crate::model::{
    component, current_names, extracted, has_unclaimed_declaration, next_pairs, recognized, relationships_of, renamer_at,
    transitions, unrolled, ModelView, ACTION_ATTRIBUTE,
    INITIAL_ATTRIBUTE, NEXT_ATTRIBUTE, PROPERTY_ATTRIBUTE, TRANSITION_ATTRIBUTE,
    declarations_of,
};
use crate::text::decimal;
use crate::syntax::{single_attribute, CommandView, DeclarationView, TermView};

verus! {

broadcast use vstd::seq::axiom_seq_index_decreases, vstd::seq::axiom_seq_subrange_decreases;

/// The number of definitions among the first `n` commands whose single attribute
/// is `keyword`.
pub open spec fn count_relationships(cmds: Seq<CommandView>, n: int, keyword: Seq<char>) -> nat
    decreases n,
{
    if n <= 0 {
        0
    } else {
        count_relationships(cmds, n - 1, keyword) + match cmds[n - 1] {
            CommandView::DefineFun(d) => match single_attribute(d.term) {
                Some((_, k, _)) => if k == keyword {
                    1nat
                } else {
                    0nat
                },
                None => 0nat,
            },
            _ => 0nat,
        }
    }
}

proof fn lemma_relationship_counts(cmds: Seq<CommandView>, decls: Seq<DeclarationView>, n: int)
    requires
        0 <= n <= cmds.len(),
        relationships_of(cmds, decls, n) is Ok,
    ensures
        relationships_of(cmds, decls, n)->Ok_0.0.len() == count_relationships(cmds, n, NEXT_ATTRIBUTE@),
        relationships_of(cmds, decls, n)->Ok_0.1.len() == count_relationships(cmds, n, ACTION_ATTRIBUTE@),
    decreases n,
{
    if n > 0 {
        lemma_relationship_counts(cmds, decls, n - 1);
        assert(NEXT_ATTRIBUTE@ != ACTION_ATTRIBUTE@) by {
            reveal_strlit("next");
            reveal_strlit("action");
            assert(NEXT_ATTRIBUTE@ == "next"@);
            assert(NEXT_ATTRIBUTE@.len() != ACTION_ATTRIBUTE@.len());
        }
    }
}

/// Extraction succeeds on a sequence of at least four declarations whose last three
/// carry the initial condition, the transition relation and the property, whose
/// other declarations are of the three accepted kinds, whose relationships all
/// resolve to well-formed variables and actions, and each of whose parameterless
/// declarations some relationship names; the system then has one state variable for each `:next` relationship
/// and one action for each `:action` relationship.
pub proof fn lemma_extraction_counts(cmds: Seq<CommandView>)
    requires
        cmds.len() >= 4,
        component(cmds[cmds.len() - 1], PROPERTY_ATTRIBUTE@) is Some,
        component(cmds[cmds.len() - 2], TRANSITION_ATTRIBUTE@) is Some,
        component(cmds[cmds.len() - 3], INITIAL_ATTRIBUTE@) is Some,
        forall|i: int| 0 <= i < cmds.len() - 3 ==> recognized(#[trigger] cmds[i]),
        relationships_of(cmds, declarations_of(cmds, cmds.len() - 3), cmds.len() - 3) is Ok,
        !has_unclaimed_declaration(
            declarations_of(cmds, cmds.len() - 3),
            relationships_of(cmds, declarations_of(cmds, cmds.len() - 3), cmds.len() - 3)->Ok_0.0,
            relationships_of(cmds, declarations_of(cmds, cmds.len() - 3), cmds.len() - 3)->Ok_0.1,
        ),
    ensures
        extracted(cmds) is Ok,
        extracted(cmds)->Ok_0.variables.len() == count_relationships(
            cmds,
            cmds.len() - 3,
            NEXT_ATTRIBUTE@,
        ),
        extracted(cmds)->Ok_0.actions.len() == count_relationships(
            cmds,
            cmds.len() - 3,
            ACTION_ATTRIBUTE@,
        ),
{
    lemma_relationship_counts(cmds, declarations_of(cmds, cmds.len() - 3), cmds.len() - 3);
}

proof fn lemma_transitions_len(m: ModelView, n: nat)
    ensures
        transitions(m, n).len() == n,
    decreases n,
{
    if n > 0 {
        lemma_transitions_len(m, (n - 1) as nat);
    }
}

/// Unrolling for `k` steps asserts `k + 1` initial and transition conditions and
/// one property.
pub proof fn lemma_unroll_counts(m: ModelView, k: nat)
    ensures
        unrolled(m, k).assertions.len() == k + 1,
        unrolled(m, k).property is Some,
{
    lemma_transitions_len(m, k);
}

proof fn lemma_indexed_name_injective(a: Seq<char>, b: Seq<char>, step: nat)
    requires
        indexed_name(a, step) == indexed_name(b, step),
    ensures
        a == b,
{
    assert(indexed_name(a, step).len() == a.len() + 1 + decimal(step).len());
    assert(indexed_name(b, step).len() == b.len() + 1 + decimal(step).len());
    assert(indexed_name(a, step).subrange(0, a.len() as int) =~= a);
    assert(indexed_name(b, step).subrange(0, b.len() as int) =~= b);
}

/// At one step, distinct current-frame names are renamed to distinct names.
pub proof fn lemma_renaming_injective(r: RenamerView, a: Seq<char>, b: Seq<char>)
    requires
        r.current.contains(a),
        r.current.contains(b),
        a != b,
    ensures
        rename_symbol(r, a) != rename_symbol(r, b),
{
    if rename_symbol(r, a) == rename_symbol(r, b) {
        lemma_indexed_name_injective(a, b, r.step);
    }
}

proof fn lemma_lookup_is_current(m: ModelView, n: Seq<char>, i: int)
    requires
        next_frame_lookup(next_pairs(m), n, i) is Some,
    ensures
        current_names(m).contains(next_frame_lookup(next_pairs(m), n, i)->0),
    decreases i,
{
    if next_pairs(m)[i - 1].0 == n {
        assert(current_names(m)[i - 1] == next_pairs(m)[i - 1].1);
    } else {
        lemma_lookup_is_current(m, n, i - 1);
    }
}

/// A next-frame name renamed at step `s` is the name that its current-frame name
/// is renamed to at step `s + 1`, unless the name is itself a current-frame name.
pub proof fn lemma_adjacent_steps(m: ModelView, n: Seq<char>, s: nat)
    requires
        next_frame_name(next_pairs(m), n) is Some,
        !current_names(m).contains(n),
    ensures
        rename_symbol(renamer_at(m, s), n) == rename_symbol(
            renamer_at(m, s + 1),
            next_frame_name(next_pairs(m), n)->0,
        ),
{
    lemma_lookup_is_current(m, n, next_pairs(m).len() as int);
}

/// Whether no symbol of `t` is a current-frame or next-frame name of `r`.
pub open spec fn avoids_frames(r: RenamerView, t: TermView) -> bool
    decreases t,
{
    match t {
        TermView::Symbol(s) => !r.current.contains(s) && next_frame_name(r.next, s) is None,
        TermView::List(items) => all_avoid_frames(r, items),
        _ => true,
    }
}

pub open spec fn all_avoid_frames(r: RenamerView, s: Seq<TermView>) -> bool
    decreases s,
{
    s.len() == 0 || (all_avoid_frames(r, s.drop_last()) && avoids_frames(r, s.last()))
}

proof fn lemma_all_avoid_frames(r: RenamerView, s: Seq<TermView>)
    requires
        all_avoid_frames(r, s),
    ensures
        forall|i: int| 0 <= i < s.len() ==> avoids_frames(r, #[trigger] s[i]),
    decreases s.len(),
{
    if s.len() > 0 {
        lemma_all_avoid_frames(r, s.drop_last());
        assert forall|i: int| 0 <= i < s.len() implies avoids_frames(r, #[trigger] s[i]) by {
            if i < s.len() - 1 {
                assert(s.drop_last()[i] == s[i]);
            }
        }
    }
}

/// Renaming leaves a term without current-frame and next-frame symbols as it is.
pub proof fn lemma_rename_pass_through(r: RenamerView, t: TermView)
    requires
        avoids_frames(r, t),
    ensures
        rename_term(r, t) == t,
    decreases t,
{
    if let TermView::List(items) = t {
        lemma_all_avoid_frames(r, items);
        lemma_rename_terms(r, items);
        assert forall|i: int| 0 <= i < items.len() implies rename_terms(r, items)[i] == items[i] by {
            lemma_rename_pass_through(r, items[i]);
        }
        assert(rename_terms(r, items) =~= items);
    }
}

/// Whether no application in `t` has an array operation at its head.
pub open spec fn array_free(t: TermView) -> bool
    decreases t,
{
    match t {
        TermView::List(items) => (items.len() == 0 || !is_array_operation(items[0])) && all_array_free(
            items,
        ),
        _ => true,
    }
}

pub open spec fn all_array_free(s: Seq<TermView>) -> bool
    decreases s,
{
    s.len() == 0 || (all_array_free(s.drop_last()) && array_free(s.last()))
}

proof fn lemma_all_array_free(s: Seq<TermView>)
    ensures
        all_array_free(s) <==> forall|i: int| 0 <= i < s.len() ==> array_free(#[trigger] s[i]),
    decreases s.len(),
{
    if s.len() > 0 {
        lemma_all_array_free(s.drop_last());
        if forall|i: int| 0 <= i < s.len() ==> array_free(#[trigger] s[i]) {
            assert forall|i: int| 0 <= i < s.len() - 1 implies array_free(#[trigger] s.drop_last()[i]) by {
                assert(array_free(s[i]));
            }
        }
        if all_array_free(s) {
            assert forall|i: int| 0 <= i < s.len() implies array_free(#[trigger] s[i]) by {
                if i < s.len() - 1 {
                    assert(s.drop_last()[i] == s[i]);
                }
            }
        }
    }
}

/// Abstraction leaves a term without array operations as it is.
pub proof fn lemma_abstract_pass_through(t: TermView)
    requires
        array_free(t),
    ensures
        abstract_term(t) == t,
    decreases t,
{
    if let TermView::List(items) = t {
        lemma_all_array_free(items);
        lemma_abstract_terms(items);
        assert forall|i: int| 0 <= i < items.len() implies abstract_terms(items)[i] == items[i] by {
            lemma_abstract_pass_through(items[i]);
        }
        assert(abstract_terms(items) =~= items);
        if items.len() > 0 {
            assert(abstract_terms(items).update(0, abstract_head(abstract_terms(items)[0])) =~= items);
        }
    }
}

proof fn lemma_abstract_names_differ()
    ensures
        ABSTRACT_READ@ != SELECT@,
        ABSTRACT_READ@ != STORE@,
        ABSTRACT_WRITE@ != SELECT@,
        ABSTRACT_WRITE@ != STORE@,
        ABSTRACT_CONST_ARRAY@ != SELECT@,
        ABSTRACT_CONST_ARRAY@ != STORE@,
{
    reveal_strlit("select");
    reveal_strlit("store");
    reveal_strlit("Read-Int-Int");
    reveal_strlit("Write-Int-Int");
    reveal_strlit("ConstArr-Int-Int");
    assert(SELECT@.len() == 6 && STORE@.len() == 5 && ABSTRACT_READ@.len() == 12);
    assert(ABSTRACT_WRITE@.len() == 13 && ABSTRACT_CONST_ARRAY@.len() == 16);
}

/// After abstraction no application in a term has `select`, `store` or
/// `(as const (Array Int Int))` at its head.
pub proof fn lemma_abstract_term_array_free(t: TermView)
    ensures
        array_free(abstract_term(t)),
    decreases t,
{
    if let TermView::List(items) = t {
        lemma_abstract_terms(items);
        lemma_abstract_names_differ();
        let inner = abstract_terms(items);
        assert forall|i: int| 0 <= i < items.len() implies array_free(#[trigger] inner[i]) by {
            lemma_abstract_term_array_free(items[i]);
        }
        if items.len() > 0 {
            let out = inner.update(0, abstract_head(inner[0]));
            assert forall|i: int| 0 <= i < out.len() implies array_free(#[trigger] out[i]) by {
                if i == 0 {
                    assert(array_free(inner[0]));
                }
            }
            lemma_all_array_free(out);
        } else {
            lemma_all_array_free(inner);
        }
    }
}

/// When every array sort of a system is `(Array Int Int)`, after abstraction no
/// state variable or action is declared with the sort
/// `(Array Int Int)`, and no application in the conditions has `select`, `store`
/// or `(as const (Array Int Int))` at its head. Sorts inside terms (such as those
/// of quantified variables), parameter sorts of declarations and arrays of other
/// shapes are left as they are.
pub proof fn lemma_abstract_model_array_free(m: ModelView)
    requires
        model_single_shape(m),
    ensures
        forall|i: int|
            0 <= i < abstracted(m).variables.len() ==> !is_array_sort(
                (#[trigger] abstracted(m).variables[i]).current.sort,
            ) && !is_array_sort(abstracted(m).variables[i].next.sort),
        forall|i: int|
            0 <= i < abstracted(m).actions.len() ==> !is_array_sort(
                (#[trigger] abstracted(m).actions[i]).sort,
            ),
        array_free(abstracted(m).init),
        array_free(abstracted(m).trans),
        array_free(abstracted(m).prop),
{
    lemma_abstract_term_array_free(m.init);
    lemma_abstract_term_array_free(m.trans);
    lemma_abstract_term_array_free(m.prop);
}

} // verus!
