//! Laws of the driver: the order of the rules in a pass, and the fixpoint
//! that a converged run leaves.

use vstd::prelude::*;
use crate::context::Sources;
use crate::rules::driver::{left, pass, run, visit, visit_slots, Walked};
use crate::rules::AstOptimizationRule;
use crate::tree::{height, lemma_slot_height, lemma_slots_height_drop_first, slots_height, Tree};

verus! {

/// A rule added behind the rules of a registry runs last in a pass: it walks
/// the tree that the rules before it have left after each of them has walked
/// the whole tree, with the budget that they have left.
pub proof fn lemma_appended_rule_runs_last<R: AstOptimizationRule>(
    rules: Seq<R>,
    rule: R,
    sources: Sources,
    root: Tree,
    fuel: nat,
)
    ensures
        ({
            let before = pass(rules, sources, root, fuel);
            let last = visit(rule, sources, before.out, left(fuel, before.rewrites));
            pass(rules.push(rule), sources, root, fuel) == (Walked {
                out: last.out,
                rewrites: before.rewrites + last.rewrites,
                trace: before.trace + last.trace,
            })
        }),
{
    assert(rules.push(rule).drop_last() =~= rules);
}

/// A walk that replaces nothing leaves the tree as it is, and does the same
/// with any other budget that is not 0.
pub proof fn lemma_quiet_visit<R: AstOptimizationRule>(
    rule: R,
    sources: Sources,
    node: Tree,
    fuel: nat,
    other: nat,
)
    requires
        fuel > 0,
        other > 0,
        visit(rule, sources, node, fuel).rewrites == 0,
    ensures
        visit(rule, sources, node, fuel).out == node,
        visit(rule, sources, node, other) == visit(rule, sources, node, fuel),
    decreases height(node), 0nat,
{
    lemma_quiet_visit_slots(rule, sources, node.slots, fuel, other);
}

/// A walk over a row of slots that replaces nothing leaves the row as it is,
/// and does the same with any other budget that is not 0.
pub proof fn lemma_quiet_visit_slots<R: AstOptimizationRule>(
    rule: R,
    sources: Sources,
    slots: Seq<Option<Tree>>,
    fuel: nat,
    other: nat,
)
    requires
        fuel > 0,
        other > 0,
        visit_slots(rule, sources, slots, fuel).rewrites == 0,
    ensures
        visit_slots(rule, sources, slots, fuel).out == slots,
        visit_slots(rule, sources, slots, other) == visit_slots(rule, sources, slots, fuel),
    decreases slots_height(slots), 1 + slots.len(),
{
    if slots.len() > 0 {
        lemma_slots_height_drop_first(slots);
        match slots[0] {
            Some(child) => {
                lemma_slot_height(slots, 0);
                lemma_quiet_visit(rule, sources, child, fuel, other);
            },
            None => {},
        }
        lemma_quiet_visit_slots(rule, sources, slots.drop_first(), fuel, other);
        assert(seq![slots[0]] + slots.drop_first() =~= slots);
    } else {
        assert(visit_slots(rule, sources, slots, fuel).out =~= slots);
    }
}

/// A pass that replaces nothing leaves the tree as it is, and does the same
/// with any other budget that is not 0.
pub proof fn lemma_quiet_pass<R: AstOptimizationRule>(
    rules: Seq<R>,
    sources: Sources,
    root: Tree,
    fuel: nat,
    other: nat,
)
    requires
        fuel > 0,
        other > 0,
        pass(rules, sources, root, fuel).rewrites == 0,
    ensures
        pass(rules, sources, root, fuel).out == root,
        pass(rules, sources, root, other) == pass(rules, sources, root, fuel),
    decreases rules.len(),
{
    if rules.len() > 0 {
        lemma_quiet_pass(rules.drop_last(), sources, root, fuel, other);
        lemma_quiet_visit(rules.last(), sources, root, fuel, other);
    }
}

/// A run that has converged leaves a fixpoint: a full pass over the tree that
/// it has left replaces nothing, whatever the budget.
pub proof fn lemma_converged_is_fixpoint<R: AstOptimizationRule>(
    rules: Seq<R>,
    sources: Sources,
    root: Tree,
    fuel: nat,
    other: nat,
)
    requires
        run(rules, sources, root, fuel).converged,
        other > 0,
    ensures
        pass(rules, sources, run(rules, sources, root, fuel).out, other).rewrites == 0,
        pass(rules, sources, run(rules, sources, root, fuel).out, other).out == run(
            rules,
            sources,
            root,
            fuel,
        ).out,
    decreases fuel,
{
    let first = pass(rules, sources, root, fuel);
    if first.rewrites == 0 {
        lemma_quiet_pass(rules, sources, root, fuel, other);
    } else {
        lemma_converged_is_fixpoint(rules, sources, first.out, left(fuel, first.rewrites), other);
    }
}

/// Running the driver again on what a converged run has left changes
/// nothing: the second run converges at once and leaves the same tree.
pub proof fn lemma_apply_all_idempotent<R: AstOptimizationRule>(
    rules: Seq<R>,
    sources: Sources,
    root: Tree,
    fuel: nat,
    again: nat,
)
    requires
        run(rules, sources, root, fuel).converged,
        again > 0,
    ensures
        run(rules, sources, run(rules, sources, root, fuel).out, again).converged,
        run(rules, sources, run(rules, sources, root, fuel).out, again).out == run(
            rules,
            sources,
            root,
            fuel,
        ).out,
        run(rules, sources, run(rules, sources, root, fuel).out, again).rewrites == 0,
{
    lemma_converged_is_fixpoint(rules, sources, root, fuel, again);
}

} // verus!
