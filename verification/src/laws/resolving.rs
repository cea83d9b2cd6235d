//! Laws of bound captures: the bound on the captures that are followed cuts
//! no chain short, and a bound capture matches as what it holds.

use vstd::prelude::*;
use crate::pattern::{match_node, resolve, resolved};
use crate::tree::{placeholder, unwrap_all, Env, Tree};

verus! {

/// The bound capture that `p` is under `env`, if it is one.
pub open spec fn bound_capture(p: Tree, env: Env) -> Option<Seq<char>> {
    match placeholder(unwrap_all(p)) {
        Some(v) => if env.dom().contains(v) {
            Some(v)
        } else {
            None
        },
        None => None,
    }
}

/// Whether following the bound captures from `p` leads through the capture
/// `name`, at the latest after `hops` others.
pub open spec fn leads_through(p: Tree, env: Env, hops: nat, name: Seq<char>) -> bool
    decreases hops,
{
    match bound_capture(p, env) {
        Some(v) => v == name || (hops > 0 && leads_through(env[v], env, (hops - 1) as nat, name)),
        None => false,
    }
}

/// A chain that has ended stays as it is when more captures may be
/// followed.
pub proof fn lemma_resolve_monotone(p: Tree, env: Env, hops: nat, more: nat)
    requires
        resolve(p, env, hops) is Some,
        hops <= more,
    ensures
        resolve(p, env, more) == resolve(p, env, hops),
    decreases hops,
{
    match bound_capture(p, env) {
        Some(v) => {
            lemma_resolve_monotone(env[v], env, (hops - 1) as nat, (more - 1) as nat);
        },
        None => {},
    }
}

/// A chain that ends and leads through a capture ends as the chain from
/// what that capture holds, which is shorter.
proof fn lemma_chain_cut(p: Tree, env: Env, hops: nat, name: Seq<char>)
    requires
        resolve(p, env, hops) is Some,
        leads_through(p, env, hops, name),
    ensures
        hops > 0,
        resolve(env[name], env, (hops - 1) as nat) == resolve(p, env, hops),
    decreases hops,
{
    let v = bound_capture(p, env)->0;
    if v != name {
        lemma_chain_cut(env[v], env, (hops - 1) as nat, name);
        lemma_resolve_monotone(env[name], env, (hops - 2) as nat, (hops - 1) as nat);
    }
}

/// A chain that ends leads through no capture after its end.
proof fn lemma_chain_ends(p: Tree, env: Env, hops: nat, more: nat, name: Seq<char>)
    requires
        resolve(p, env, hops) is Some,
        leads_through(p, env, more, name),
    ensures
        leads_through(p, env, hops, name),
    decreases hops,
{
    let v = bound_capture(p, env)->0;
    if v != name {
        lemma_chain_ends(env[v], env, (hops - 1) as nat, (more - 1) as nat, name);
    }
}

/// The chain from what a capture holds, if it ends, does not lead back
/// through the capture.
proof fn lemma_chain_no_return(env: Env, hops: nat, more: nat, name: Seq<char>)
    requires
        env.dom().contains(name),
        resolve(env[name], env, hops) is Some,
    ensures
        !leads_through(env[name], env, more, name),
    decreases hops,
{
    if leads_through(env[name], env, more, name) {
        lemma_chain_ends(env[name], env, hops, more, name);
        lemma_chain_cut(env[name], env, hops, name);
        lemma_chain_no_return(env, (hops - 1) as nat, hops, name);
    }
}

/// A chain that does not lead through a capture is the same without that
/// capture.
proof fn lemma_chain_without(p: Tree, env: Env, hops: nat, name: Seq<char>)
    requires
        !leads_through(p, env, hops, name),
    ensures
        resolve(p, env.remove(name), hops) == resolve(p, env, hops),
    decreases hops,
{
    match bound_capture(p, env) {
        Some(v) => {
            if hops > 0 {
                lemma_chain_without(env[v], env, (hops - 1) as nat, name);
            }
        },
        None => {},
    }
}

/// The bound on the captures that are followed cuts no chain short: a chain
/// that ends at all ends within as many bound captures as `env` holds. So
/// `resolved` is `None` only where the chain never ends.
pub proof fn lemma_resolved_is_complete(p: Tree, env: Env, hops: nat)
    requires
        env.dom().finite(),
        resolve(p, env, hops) is Some,
    ensures
        resolved(p, env) == resolve(p, env, hops),
    decreases env.dom().len(),
{
    match bound_capture(p, env) {
        Some(v) => {
            lemma_held_is_complete(env, v, (hops - 1) as nat);
        },
        None => {},
    }
}

/// The chain from what a capture holds, if it ends at all, ends within as
/// many bound captures as `env` holds beside that capture.
pub proof fn lemma_held_is_complete(env: Env, name: Seq<char>, hops: nat)
    requires
        env.dom().finite(),
        env.dom().contains(name),
        resolve(env[name], env, hops) is Some,
    ensures
        resolve(env[name], env, (env.dom().len() - 1) as nat) == resolve(env[name], env, hops),
    decreases env.dom().len(), 0nat,
{
    let rest = env.remove(name);
    let count = (env.dom().len() - 1) as nat;
    assert(rest.dom().len() == count);
    lemma_chain_no_return(env, hops, hops, name);
    lemma_chain_no_return(env, hops, count, name);
    lemma_chain_without(env[name], env, hops, name);
    lemma_chain_without(env[name], env, count, name);
    lemma_resolved_is_complete(env[name], rest, hops);
}

/// A capture that is bound matches as what it holds, taken as a pattern.
pub proof fn lemma_bound_capture_rematches(p: Tree, name: Seq<char>, t: Tree, env: Env)
    requires
        env.dom().finite(),
        bound_capture(p, env) == Some(name),
    ensures
        match_node(p, t, env) == match_node(env[name], t, env),
{
    let count = env.dom().len();
    assert(count > 0);
    if resolve(env[name], env, count) is Some {
        lemma_held_is_complete(env, name, count);
    } else if resolve(env[name], env, (count - 1) as nat) is Some {
        lemma_resolve_monotone(env[name], env, (count - 1) as nat, count);
    }
}

} // verus!
