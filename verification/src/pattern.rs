//! What it means for a pattern to match a subject, and for captured content
//! to be substituted into a replacement.

use vstd::prelude::*;
use crate::kind::Kind;
use crate::tree::{
    forest_height, height, identical, lemma_forest_height, lemma_forest_height_drop_first,
    lemma_present_height, lemma_unwrap_all_height, placeholder, present, unwrap_all, Env, Tree,
};

verus! {

/// How a match ended: whether the pattern matched, and the captures as the
/// attempt left them.
pub ghost struct Outcome {
    pub matched: bool,
    pub bindings: Env,
}

/// The pattern that stands for `p` under `env`: `p` without its wrappers,
/// and, while that is a capture that `env` has bound, what the capture holds
/// in its place. At most `hops` bound captures are followed; `None` where
/// that does not reach the end.
pub open spec fn resolve(p: Tree, env: Env, hops: nat) -> Option<Tree>
    decreases hops,
{
    let q = unwrap_all(p);
    match placeholder(q) {
        Some(v) => if env.dom().contains(v) {
            if hops == 0 {
                None
            } else {
                resolve(env[v], env, (hops - 1) as nat)
            }
        } else {
            Some(q)
        },
        None => Some(q),
    }
}

/// The pattern that stands for `p` under `env`, or `None` where the captures
/// of `env` lead back to one another without end: following more bound
/// captures than `env` holds means following one of them twice.
pub open spec fn resolved(p: Tree, env: Env) -> Option<Tree> {
    resolve(p, env, env.dom().len())
}

/// Matching the pattern `p` against the subject `t`, with the captures `env`
/// made so far.
///
/// Wrappers are removed from both. A capture that is not bound yet matches
/// any subject and is bound to it. A capture that is bound stands for what it
/// holds, taken as a pattern. Any other pattern matches a subject of the same
/// kind and attributes, with an identical literal where it is a value node,
/// and with as many children, each of which it matches in turn, from left to
/// right, up to the first that fails.
pub open spec fn match_node(p: Tree, t: Tree, env: Env) -> Outcome
    decreases height(t), 0nat,
{
    let s = unwrap_all(t);
    match resolved(p, env) {
        None => Outcome { matched: false, bindings: env },
        Some(q) => match placeholder(q) {
            Some(v) => Outcome { matched: true, bindings: env.insert(v, s) },
            None => if same_head(q, s) {
                proof {
                    lemma_unwrap_all_height(t);
                    lemma_present_height(s.slots);
                }
                match_children(present(q.slots), present(s.slots), env)
            } else {
                Outcome { matched: false, bindings: env }
            },
        },
    }
}

/// Whether a pattern node that is no capture agrees with a subject node in
/// all but the children themselves.
pub open spec fn same_head(q: Tree, s: Tree) -> bool {
    &&& q.kind == s.kind
    &&& q.attr == s.attr
    &&& q.kind == Kind::Zval ==> identical(q.value, s.value)
    &&& present(q.slots).len() == present(s.slots).len()
}

/// Matching the patterns `ps` against the subjects `ts`, pair by pair from
/// left to right, up to the first pair that fails.
pub open spec fn match_children(ps: Seq<Tree>, ts: Seq<Tree>, env: Env) -> Outcome
    decreases forest_height(ts), 1 + ts.len(),
{
    if ps.len() == 0 || ts.len() == 0 {
        Outcome { matched: true, bindings: env }
    } else {
        proof {
            lemma_forest_height(ts, 0);
            lemma_forest_height_drop_first(ts);
        }
        let first = match_node(ps[0], ts[0], env);
        if first.matched {
            match_children(ps.drop_first(), ts.drop_first(), first.bindings)
        } else {
            first
        }
    }
}

/// The replacement `r` with each capture replaced by what `env` holds for it.
/// What is put in is not looked into; a capture that `env` does not hold
/// stays.
pub open spec fn substitute(r: Tree, env: Env) -> Tree
    decreases r,
{
    match placeholder(r) {
        Some(v) => if env.dom().contains(v) {
            env[v]
        } else {
            r
        },
        None => Tree {
            slots: Seq::new(
                r.slots.len(),
                |i: int|
                    if 0 <= i < r.slots.len() {
                        match r.slots[i] {
                            Some(c) => Some(substitute(c, env)),
                            None => None,
                        }
                    } else {
                        None
                    },
            ),
            ..r
        },
    }
}

/// Whether `env` holds every capture that stands in `r`.
pub open spec fn covers(env: Env, r: Tree) -> bool
    decreases r,
{
    match placeholder(r) {
        Some(v) => env.dom().contains(v),
        None => forall|i: int|
            0 <= i < r.slots.len() && r.slots[i] is Some ==> covers(env, #[trigger] r.slots[i]->0),
    }
}

/// Whether no capture stands in `t`.
pub open spec fn capture_free(t: Tree) -> bool
    decreases t,
{
    placeholder(t) is None && forall|i: int|
        0 <= i < t.slots.len() && t.slots[i] is Some ==> capture_free(#[trigger] t.slots[i]->0)
}

/// Whether every node in `t` has as many child slots as its kind asks for.
pub open spec fn arity_ok(t: Tree) -> bool
    decreases t,
{
    t.slots.len() == t.kind.spec_slot_count(t.slots.len()) && forall|i: int|
        0 <= i < t.slots.len() && t.slots[i] is Some ==> arity_ok(#[trigger] t.slots[i]->0)
}

/// What one search and replace pair makes of the node `t`: where `search`
/// matches `t`, starting from no captures, and the captures made hold every
/// capture of `replace`, the replacement with the captures put in and its
/// wrappers removed; `None` otherwise.
pub open spec fn rewrite(search: Tree, replace: Tree, t: Tree) -> Option<Tree> {
    let outcome = match_node(search, t, Map::empty());
    if outcome.matched && covers(outcome.bindings, replace) {
        Some(unwrap_all(substitute(replace, outcome.bindings)))
    } else {
        None
    }
}

} // verus!
