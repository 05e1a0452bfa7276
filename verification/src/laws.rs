//! What holds of the text of a value, of the size of a predicate and of the
//! text of a quantified formula.

use crate::ipc::{
    ElrondAssertion, ElrondForallFormulaView, ElrondPred, ElrondPredView, ElrondSimpleExpr,
    ElrondSimpleExprView, ElrondSpec, FreeVarView,
};
use crate::ipc_assertion::SpecView;
use crate::text::joined;
use crate::typing::{typed_formula, typed_spec};
use vstd::prelude::*;

verus! {

/// The text of a predicate depends on its value alone: two predicates of the
/// same value, and so the same predicate rendered twice, have the same text.
pub proof fn lemma_pred_text_is_stable(first: ElrondPred, second: ElrondPred)
    requires
        first@ == second@,
    ensures
        first@.render() == second@.render(),
{
}

/// The text of an expression depends on its value alone.
pub proof fn lemma_expr_text_is_stable(first: ElrondSimpleExpr, second: ElrondSimpleExpr)
    requires
        first@ == second@,
    ensures
        first@.render() == second@.render(),
{
}

/// The text of a specification, on one line and as a `let`, depends on its
/// value alone.
pub proof fn lemma_spec_text_is_stable(first: ElrondSpec, second: ElrondSpec)
    requires
        first@ == second@,
    ensures
        first@.render() == second@.render(),
        forall|kind: crate::ipc_assertion::SpecKind|
            first@.render_for_file(kind) == second@.render_for_file(kind),
{
}

/// The text of a file depends on its value alone.
pub proof fn lemma_file_text_is_stable(first: ElrondAssertion, second: ElrondAssertion)
    requires
        first@ == second@,
    ensures
        first@.render() == second@.render(),
{
}

/// The negation of an atom has size 2.
pub proof fn lemma_size_of_negated_atom(expr: ElrondSimpleExprView)
    ensures
        ElrondPredView::Not(Box::new(ElrondPredView::Atom(expr))).size() == 2,
{
    assert(ElrondPredView::Atom(expr).size() == 1);
}

/// A conjunction, and a disjunction, of three formulas has one more than the
/// sizes of the three together.
pub proof fn lemma_size_of_three(first: ElrondPredView, second: ElrondPredView, third: ElrondPredView)
    ensures
        ElrondPredView::And(seq![first, second, third]).size() == 1 + first.size()
            + second.size() + third.size(),
        ElrondPredView::Or(seq![first, second, third]).size() == 1 + first.size() + second.size()
            + third.size(),
{
    let three = seq![first, second, third];
    let two = seq![first, second];
    let one = seq![first];
    assert(three.drop_last() =~= two);
    assert(two.drop_last() =~= one);
    assert(one.drop_last() =~= Seq::<ElrondPredView>::empty());
    assert(ElrondPredView::total_size(one.drop_last()) == 0);
    assert(ElrondPredView::total_size(one) == first.size());
    assert(ElrondPredView::total_size(two) == first.size() + second.size());
    assert(ElrondPredView::total_size(three) == first.size() + second.size() + third.size());
}

/// Without quantified variables a formula is written as its body alone; with
/// some, as `forall`, the variables with commas between them, a dot between
/// blanks, and the body.
pub proof fn lemma_forall_prefix(formula: ElrondForallFormulaView)
    ensures
        formula.0.len() == 0 ==> formula.render() == formula.1.render(),
        formula.0.len() > 0 ==> formula.render() == "forall "@ + joined(
            FreeVarView::renders(formula.0),
            ","@,
        ) + " . "@ + formula.1.render(),
        formula.0.len() > 0 ==> formula.render().len() >= 7 && formula.render().subrange(0, 7)
            == "forall "@,
{
    if formula.0.len() > 0 {
        reveal_strlit("forall ");
        let vars = joined(FreeVarView::renders(formula.0), ","@);
        let text = formula.render();
        assert(text =~= "forall "@ + (vars + " . "@ + formula.1.render()));
        assert(text.subrange(0, 7) =~= "forall "@);
    }
}

/// A specification that comes from an annotation file quantifies no
/// variable, so that its formula is written as the body alone.
pub proof fn lemma_parsed_formula_is_bare(spec: SpecView)
    ensures
        typed_spec(spec).1.0.len() == 0,
        typed_spec(spec).1.render() == typed_formula(spec.0, spec.1).render(),
{
}

} // verus!
