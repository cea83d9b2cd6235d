//! Arity is preserved: by substitution, by a rewrite, and by the driver.

use vstd::prelude::*;
use crate::context::{template, Sources};
use crate::pattern::{
    arity_ok, match_children, match_node, resolved, rewrite, same_head, substitute,
};
use crate::rules::driver::{left, pass, run, visit, visit_slots};
use crate::rules::registry::Rule;
use crate::rules::{apply_pairs, pair_rewrite, AstOptimizationRule};
use crate::tree::{
    forest_height, height, lemma_forest_height, lemma_forest_height_drop_first,
    lemma_present_from_slot, lemma_present_height, lemma_slot_height,
    lemma_slots_height_drop_first, lemma_unwrap_all_height, placeholder, present, slots_height,
    unwrap, unwrap_all, Env, Tree,
};

verus! {

/// Substitution preserves arity: where every node of the replacement and of
/// each captured tree has as many child slots as its kind asks for, so has
/// every node of the result.
pub proof fn lemma_substitute_preserves_arity(r: Tree, env: Env)
    requires
        arity_ok(r),
        forall|name: Seq<char>| env.dom().contains(name) ==> arity_ok(#[trigger] env[name]),
    ensures
        arity_ok(substitute(r, env)),
    decreases r,
{
    if placeholder(r) is None {
        let out = substitute(r, env);
        assert forall|i: int| 0 <= i < out.slots.len() && out.slots[i] is Some implies arity_ok(
            #[trigger] out.slots[i]->0,
        ) by {
            assert(r.slots[i] is Some);
            assert(arity_ok(r.slots[i]->0));
            lemma_substitute_preserves_arity(r.slots[i]->0, env);
        }
    }
}

/// Removing the wrappers of a tree in which every node has as many child
/// slots as its kind asks for leaves such a tree.
pub proof fn lemma_unwrap_all_preserves_arity(t: Tree)
    requires
        arity_ok(t),
    ensures
        arity_ok(unwrap_all(t)),
    decreases t,
{
    match unwrap(t) {
        Some(inner) => {
            assert(t.slots[0] is Some);
            assert(arity_ok(t.slots[0]->0));
            lemma_unwrap_all_preserves_arity(inner);
        },
        None => {},
    }
}

/// Whether every tree that `env` holds has, in every node, as many child
/// slots as the kind of the node asks for.
pub open spec fn env_arity_ok(env: Env) -> bool {
    forall|name: Seq<char>| env.dom().contains(name) ==> arity_ok(#[trigger] env[name])
}

/// Every child of a tree in which every node has as many child slots as its
/// kind asks for is such a tree.
pub proof fn lemma_present_arity(t: Tree)
    requires
        arity_ok(t),
    ensures
        forall|k: int| 0 <= k < present(t.slots).len() ==> arity_ok(#[trigger] present(t.slots)[k]),
{
    assert forall|k: int| 0 <= k < present(t.slots).len() implies arity_ok(
        #[trigger] present(t.slots)[k],
    ) by {
        let i = lemma_present_from_slot(t.slots, k);
        assert(arity_ok(t.slots[i]->0));
    }
}

/// What a match captures of a subject in which every node has as many child
/// slots as its kind asks for are such trees.
pub proof fn lemma_match_preserves_arity(p: Tree, t: Tree, env: Env)
    requires
        arity_ok(t),
        env_arity_ok(env),
    ensures
        env_arity_ok(match_node(p, t, env).bindings),
    decreases height(t), 0nat,
{
    let s = unwrap_all(t);
    lemma_unwrap_all_preserves_arity(t);
    match resolved(p, env) {
        None => {},
        Some(q) => match placeholder(q) {
            Some(v) => {},
            None => {
                if same_head(q, s) {
                    lemma_unwrap_all_height(t);
                    lemma_present_height(s.slots);
                    lemma_present_arity(s);
                    lemma_children_preserve_arity(present(q.slots), present(s.slots), env);
                }
            },
        },
    }
}

/// What a match of rows captures of subjects in which every node has as many
/// child slots as its kind asks for are such trees.
pub proof fn lemma_children_preserve_arity(ps: Seq<Tree>, ts: Seq<Tree>, env: Env)
    requires
        forall|k: int| 0 <= k < ts.len() ==> arity_ok(#[trigger] ts[k]),
        env_arity_ok(env),
    ensures
        env_arity_ok(match_children(ps, ts, env).bindings),
    decreases forest_height(ts), 1 + ts.len(),
{
    if ps.len() > 0 && ts.len() > 0 {
        lemma_forest_height(ts, 0);
        lemma_forest_height_drop_first(ts);
        lemma_match_preserves_arity(ps[0], ts[0], env);
        let first = match_node(ps[0], ts[0], env);
        if first.matched {
            assert forall|k: int| 0 <= k < ts.drop_first().len() implies arity_ok(
                #[trigger] ts.drop_first()[k],
            ) by {
                assert(ts.drop_first()[k] == ts[k + 1]);
            }
            lemma_children_preserve_arity(ps.drop_first(), ts.drop_first(), first.bindings);
        }
    }
}

/// A rewrite preserves arity: where every node of the replacement and of the
/// subject has as many child slots as its kind asks for, so has every node of
/// what replaces the subject.
pub proof fn lemma_rewrite_preserves_arity(search: Tree, replace: Tree, t: Tree)
    requires
        arity_ok(replace),
        arity_ok(t),
    ensures
        rewrite(search, replace, t) matches Some(new) ==> arity_ok(new),
{
    let env = Map::<Seq<char>, Tree>::empty();
    lemma_match_preserves_arity(search, t, env);
    let outcome = match_node(search, t, env);
    lemma_substitute_preserves_arity(replace, outcome.bindings);
    lemma_unwrap_all_preserves_arity(substitute(replace, outcome.bindings));
}

/// Whether `rule` preserves arity: what it puts in the place of a tree in
/// which every node has as many child slots as its kind asks for is such a
/// tree.
pub open spec fn preserves_arity<R: AstOptimizationRule>(rule: R, sources: Sources) -> bool {
    forall|node: Tree|
        arity_ok(node) ==> (#[trigger] rule.rewritten(sources, node) matches Some(new)
            ==> arity_ok(new))
}

/// A walk of a rule that preserves arity preserves arity.
pub proof fn lemma_visit_preserves_arity<R: AstOptimizationRule>(
    rule: R,
    sources: Sources,
    node: Tree,
    fuel: nat,
)
    requires
        preserves_arity(rule, sources),
        arity_ok(node),
    ensures
        arity_ok(visit(rule, sources, node, fuel).out),
    decreases fuel, height(node), 0nat,
{
    if fuel > 0 {
        match rule.rewritten(sources, node) {
            Some(new) => {
                lemma_visit_slots_preserves_arity(rule, sources, new.slots, (fuel - 1) as nat);
            },
            None => {
                lemma_visit_slots_preserves_arity(rule, sources, node.slots, fuel);
            },
        }
    }
}

/// A walk of a rule that preserves arity over a row of slots keeps the slots
/// and preserves arity in each.
pub proof fn lemma_visit_slots_preserves_arity<R: AstOptimizationRule>(
    rule: R,
    sources: Sources,
    slots: Seq<Option<Tree>>,
    fuel: nat,
)
    requires
        preserves_arity(rule, sources),
        forall|i: int| 0 <= i < slots.len() && slots[i] is Some ==> arity_ok(#[trigger] slots[i]->0),
    ensures
        visit_slots(rule, sources, slots, fuel).out.len() == slots.len(),
        forall|i: int|
            0 <= i < slots.len() && (#[trigger] visit_slots(rule, sources, slots, fuel).out[i])
                is Some ==> arity_ok(visit_slots(rule, sources, slots, fuel).out[i]->0),
    decreases fuel, slots_height(slots), 1 + slots.len(),
{
    if slots.len() > 0 {
        lemma_slots_height_drop_first(slots);
        let first_rewrites = match slots[0] {
            Some(child) => {
                lemma_slot_height(slots, 0);
                assert(arity_ok(slots[0]->0));
                lemma_visit_preserves_arity(rule, sources, child, fuel);
                visit(rule, sources, child, fuel).rewrites
            },
            None => 0,
        };
        let rest = slots.drop_first();
        assert forall|i: int| 0 <= i < rest.len() && rest[i] is Some implies arity_ok(
            #[trigger] rest[i]->0,
        ) by {
            assert(rest[i] == slots[i + 1]);
        }
        lemma_visit_slots_preserves_arity(rule, sources, rest, left(fuel, first_rewrites));
        let out = visit_slots(rule, sources, slots, fuel).out;
        let rest_out = visit_slots(rule, sources, rest, left(fuel, first_rewrites)).out;
        assert forall|i: int| 0 <= i < slots.len() && (#[trigger] out[i]) is Some implies arity_ok(
            out[i]->0,
        ) by {
            if i > 0 {
                assert(out[i] == rest_out[i - 1]);
            }
        }
    }
}

/// A pass of rules that preserve arity preserves arity.
pub proof fn lemma_pass_preserves_arity<R: AstOptimizationRule>(
    rules: Seq<R>,
    sources: Sources,
    root: Tree,
    fuel: nat,
)
    requires
        forall|i: int| 0 <= i < rules.len() ==> preserves_arity(#[trigger] rules[i], sources),
        arity_ok(root),
    ensures
        arity_ok(pass(rules, sources, root, fuel).out),
    decreases rules.len(),
{
    if rules.len() > 0 {
        let before = pass(rules.drop_last(), sources, root, fuel);
        assert forall|i: int| 0 <= i < rules.drop_last().len() implies preserves_arity(
            #[trigger] rules.drop_last()[i],
            sources,
        ) by {
            assert(rules.drop_last()[i] == rules[i]);
        }
        lemma_pass_preserves_arity(rules.drop_last(), sources, root, fuel);
        lemma_visit_preserves_arity(rules.last(), sources, before.out, left(fuel, before.rewrites));
    }
}

/// A run of rules that preserve arity preserves arity: the driver never
/// leaves a node that has more or fewer child slots than its kind asks for.
pub proof fn lemma_run_preserves_arity<R: AstOptimizationRule>(
    rules: Seq<R>,
    sources: Sources,
    root: Tree,
    fuel: nat,
)
    requires
        forall|i: int| 0 <= i < rules.len() ==> preserves_arity(#[trigger] rules[i], sources),
        arity_ok(root),
    ensures
        arity_ok(run(rules, sources, root, fuel).out),
    decreases fuel,
{
    if fuel > 0 {
        let first = pass(rules, sources, root, fuel);
        lemma_pass_preserves_arity(rules, sources, root, fuel);
        if first.rewrites > 0 {
            lemma_run_preserves_arity(rules, sources, first.out, left(fuel, first.rewrites));
        }
    }
}

/// Pairs whose templates the host has parsed into trees that keep to the
/// arity of each kind preserve arity.
pub proof fn lemma_pairs_preserve_arity(
    sources: Sources,
    pairs: Seq<(Seq<char>, Seq<char>)>,
    node: Tree,
)
    requires
        env_arity_ok(sources),
        arity_ok(node),
    ensures
        arity_ok(apply_pairs(sources, pairs, node).node),
    decreases pairs.len(),
{
    if pairs.len() > 0 {
        lemma_pairs_preserve_arity(sources, pairs.drop_last(), node);
        let before = apply_pairs(sources, pairs.drop_last(), node);
        let (search, replace) = pairs.last();
        lemma_pair_preserves_arity(sources, search, replace, before.node);
    }
}

/// A pair whose templates the host has parsed into trees that keep to the
/// arity of each kind preserves arity.
pub proof fn lemma_pair_preserves_arity(
    sources: Sources,
    search: Seq<char>,
    replace: Seq<char>,
    node: Tree,
)
    requires
        env_arity_ok(sources),
        arity_ok(node),
    ensures
        pair_rewrite(sources, search, replace, node) matches Some(new) ==> arity_ok(new),
{
    match (template(sources, search), template(sources, replace)) {
        (Some(p), Some(r)) => {
            lemma_rewrite_preserves_arity(p, r, node);
        },
        _ => {},
    }
}

/// Every rule that a registry can hold preserves arity, where the host has
/// parsed the templates into trees that keep to the arity of each kind.
pub proof fn lemma_registered_rule_preserves_arity(rule: Rule, sources: Sources)
    requires
        env_arity_ok(sources),
    ensures
        preserves_arity(rule, sources),
{
    assert forall|node: Tree| arity_ok(node) implies (#[trigger] rule.rewritten(
        sources,
        node,
    ) matches Some(new) ==> arity_ok(new)) by {
        match rule {
            Rule::ConditionalElimination(r) => {
                lemma_pairs_preserve_arity(
                    sources,
                    crate::rules::cond_elim::ConditionalElimination::spec_templates(),
                    node,
                );
            },
            Rule::BranchElimination(r) => {
                lemma_pairs_preserve_arity(
                    sources,
                    crate::rules::branch_elim::BranchElimination::spec_templates(),
                    node,
                );
            },
            Rule::IncrDecr(r) => {
                lemma_pairs_preserve_arity(
                    sources,
                    crate::rules::incr_decr::IncrDecr::spec_templates(),
                    node,
                );
            },
            Rule::InstanceOf(r) => {
                lemma_pairs_preserve_arity(
                    sources,
                    crate::rules::instanceof::InstanceOf::spec_templates(),
                    node,
                );
            },
            Rule::LoopUnroll(r) => {},
            Rule::Custom(r) => {
                lemma_pair_preserves_arity(sources, r.search(), r.replacement(), node);
            },
        }
    }
}

} // verus!
