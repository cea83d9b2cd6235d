//! Laws of the captures that a match makes.

use vstd::prelude::*;
use crate::pattern::{covers, match_children, match_node, resolved, rewrite, same_head};
use crate::tree::{
    forest_height, height, lemma_forest_height, lemma_forest_height_drop_first,
    lemma_present_height, lemma_slot_in_present, lemma_unwrap_all_height, placeholder, present,
    unwrap, unwrap_all, Env, Tree,
};

verus! {

/// Captures that hold every capture of a tree still do when more is
/// captured.
pub proof fn lemma_covers_monotone(small: Env, large: Env, r: Tree)
    requires
        covers(small, r),
        small.dom().subset_of(large.dom()),
    ensures
        covers(large, r),
    decreases r,
{
    if placeholder(r) is None {
        assert forall|i: int| 0 <= i < r.slots.len() && r.slots[i] is Some implies covers(
            large,
            #[trigger] r.slots[i]->0,
        ) by {
            assert(covers(small, r.slots[i]->0));
            lemma_covers_monotone(small, large, r.slots[i]->0);
        }
    }
}

/// Captures that hold every capture of a tree without its wrappers hold
/// every capture of the tree.
pub proof fn lemma_covers_wrapped(env: Env, t: Tree)
    requires
        covers(env, unwrap_all(t)),
    ensures
        covers(env, t),
    decreases t,
{
    match unwrap(t) {
        Some(inner) => {
            lemma_covers_wrapped(env, inner);
            assert(placeholder(t) is None);
        },
        None => {},
    }
}

/// Matching only adds captures, and a match that succeeds leaves every
/// capture of the pattern bound.
pub proof fn lemma_match_binds_captures(p: Tree, t: Tree, env: Env)
    ensures
        env.dom().subset_of(match_node(p, t, env).bindings.dom()),
        match_node(p, t, env).matched ==> covers(match_node(p, t, env).bindings, p),
    decreases height(t), 0nat,
{
    let s = unwrap_all(t);
    let outcome = match_node(p, t, env);
    match resolved(p, env) {
        None => {},
        Some(q) => match placeholder(q) {
            Some(v) => {
                if placeholder(unwrap_all(p)) is Some {
                    lemma_covers_wrapped(outcome.bindings, p);
                } else {
                    assert(q == unwrap_all(p));
                }
            },
            None => {
                if same_head(q, s) {
                    lemma_unwrap_all_height(t);
                    lemma_present_height(s.slots);
                    lemma_children_bind_captures(present(q.slots), present(s.slots), env);
                    if outcome.matched {
                        if placeholder(unwrap_all(p)) is Some {
                            lemma_covers_wrapped(outcome.bindings, p);
                        } else {
                            assert(q == unwrap_all(p));
                            assert forall|i: int|
                                0 <= i < q.slots.len() && q.slots[i] is Some implies covers(
                                outcome.bindings,
                                #[trigger] q.slots[i]->0,
                            ) by {
                                let k = lemma_slot_in_present(q.slots, i);
                            }
                            lemma_covers_wrapped(outcome.bindings, p);
                        }
                    }
                }
            },
        },
    }
}

/// Matching rows of patterns and subjects only adds captures, and a match
/// that succeeds leaves every capture of every pattern bound.
pub proof fn lemma_children_bind_captures(ps: Seq<Tree>, ts: Seq<Tree>, env: Env)
    requires
        ps.len() == ts.len(),
    ensures
        env.dom().subset_of(match_children(ps, ts, env).bindings.dom()),
        match_children(ps, ts, env).matched ==> forall|k: int|
            0 <= k < ps.len() ==> covers(match_children(ps, ts, env).bindings, #[trigger] ps[k]),
    decreases forest_height(ts), 1 + ts.len(),
{
    if ps.len() > 0 {
        lemma_forest_height(ts, 0);
        lemma_forest_height_drop_first(ts);
        lemma_match_binds_captures(ps[0], ts[0], env);
        let first = match_node(ps[0], ts[0], env);
        if first.matched {
            lemma_children_bind_captures(ps.drop_first(), ts.drop_first(), first.bindings);
            let last = match_children(ps, ts, env);
            if last.matched {
                lemma_covers_monotone(first.bindings, last.bindings, ps[0]);
                assert forall|k: int| 0 <= k < ps.len() implies covers(
                    last.bindings,
                    #[trigger] ps[k],
                ) by {
                    if k > 0 {
                        assert(ps.drop_first()[k - 1] == ps[k]);
                    }
                }
            }
        }
    }
}

/// Whether the replacement `replace` holds no capture that the search pattern
/// `search` lacks.
pub open spec fn consistent(search: Tree, replace: Tree) -> bool {
    forall|env: Env| covers(env, search) ==> #[trigger] covers(env, replace)
}

/// A pair whose replacement holds no capture that its search pattern lacks
/// replaces every node that the search pattern matches.
pub proof fn lemma_consistent_pair_rewrites(search: Tree, replace: Tree, t: Tree)
    requires
        consistent(search, replace),
    ensures
        rewrite(search, replace, t) is Some <==> match_node(search, t, Map::empty()).matched,
{
    lemma_match_binds_captures(search, t, Map::empty());
}

} // verus!
