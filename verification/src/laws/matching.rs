//! Laws of matching.

use vstd::prelude::*;
use crate::pattern::{
    capture_free, match_children, match_node, resolve, resolved, same_head, Outcome,
};
use crate::tree::{
    forest_height, height, lemma_forest_height, lemma_forest_height_drop_first,
    lemma_present_from_slot, lemma_present_height, lemma_unwrap_all_height, placeholder, present,
    unwrap, unwrap_all, Env, Tree,
};

verus! {

/// Removing the wrappers of a tree without captures leaves a tree without
/// captures.
pub proof fn lemma_unwrap_all_capture_free(t: Tree)
    requires
        capture_free(t),
    ensures
        capture_free(unwrap_all(t)),
    decreases t,
{
    match unwrap(t) {
        Some(inner) => {
            assert(t.slots[0] is Some);
            assert(capture_free(t.slots[0]->0));
            lemma_unwrap_all_capture_free(inner);
        },
        None => {},
    }
}

/// Removing wrappers twice removes no more than removing them once.
pub proof fn lemma_unwrap_all_idempotent(t: Tree)
    ensures
        unwrap_all(unwrap_all(t)) == unwrap_all(t),
    decreases t,
{
    match unwrap(t) {
        Some(inner) => {
            lemma_unwrap_all_idempotent(inner);
        },
        None => {},
    }
}

/// A pattern without captures matches the subject that is identical to it,
/// whatever has been captured before, and captures nothing.
pub proof fn lemma_identical_trees_match(p: Tree, env: Env)
    requires
        capture_free(p),
    ensures
        match_node(p, p, env) == (Outcome { matched: true, bindings: env }),
    decreases height(p), 0nat,
{
    let s = unwrap_all(p);
    lemma_unwrap_all_capture_free(p);
    lemma_unwrap_all_height(p);
    lemma_present_height(s.slots);
    assert(resolved(p, env) == Some(s));
    assert(same_head(s, s));
    assert forall|k: int| 0 <= k < present(s.slots).len() implies capture_free(
        #[trigger] present(s.slots)[k],
    ) by {
        let i = lemma_present_from_slot(s.slots, k);
        assert(capture_free(s.slots[i]->0));
    }
    lemma_identical_forests_match(present(s.slots), env);
}

/// Patterns without captures match the subjects that are identical to them,
/// pair by pair.
pub proof fn lemma_identical_forests_match(ps: Seq<Tree>, env: Env)
    requires
        forall|k: int| 0 <= k < ps.len() ==> capture_free(#[trigger] ps[k]),
    ensures
        match_children(ps, ps, env) == (Outcome { matched: true, bindings: env }),
    decreases forest_height(ps), 1 + ps.len(),
{
    if ps.len() > 0 {
        lemma_forest_height(ps, 0);
        lemma_forest_height_drop_first(ps);
        lemma_identical_trees_match(ps[0], env);
        assert forall|k: int| 0 <= k < ps.drop_first().len() implies capture_free(
            #[trigger] ps.drop_first()[k],
        ) by {
            assert(ps.drop_first()[k] == ps[k + 1]);
        }
        lemma_identical_forests_match(ps.drop_first(), env);
    }
}

/// A pattern that is a single capture matches every subject, when nothing has
/// been captured before, and captures the subject without its wrappers.
pub proof fn lemma_capture_matches_any_subject(p: Tree, name: Seq<char>, t: Tree)
    requires
        placeholder(unwrap_all(p)) == Some(name),
    ensures
        match_node(p, t, Map::empty()) == (Outcome {
            matched: true,
            bindings: Map::<Seq<char>, Tree>::empty().insert(name, unwrap_all(t)),
        }),
{
    let env = Map::<Seq<char>, Tree>::empty();
    assert(env.dom().len() == 0);
    assert(resolved(p, env) == Some(unwrap_all(p)));
}

/// Resolving a pattern does not depend on the wrappers around it.
pub proof fn lemma_resolve_ignores_wrappers(p: Tree, env: Env, hops: nat)
    ensures
        resolve(unwrap_all(p), env, hops) == resolve(p, env, hops),
{
    lemma_unwrap_all_idempotent(p);
}

/// Single-statement wrappers are transparent: a match does not depend on the
/// wrappers around the pattern or around the subject.
pub proof fn lemma_match_ignores_wrappers(p: Tree, t: Tree, env: Env)
    ensures
        match_node(unwrap_all(p), t, env) == match_node(p, t, env),
        match_node(p, unwrap_all(t), env) == match_node(p, t, env),
{
    lemma_resolve_ignores_wrappers(p, env, env.dom().len());
    lemma_unwrap_all_idempotent(t);
}

} // verus!
