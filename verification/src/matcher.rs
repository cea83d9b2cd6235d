//! The matcher: unification of a pattern with a subject, which fills the
//! captures.

use vstd::prelude::*;
use crate::ast::{get_children, is_bind_param, unwrap_all, views, ZendAst};
use crate::bindings::Bindings;
use crate::kind::Kind;
use crate::pattern::{match_children, match_node, resolve, resolved, same_head, Outcome};
use crate::tree::{height, identical, lemma_present_height, lemma_unwrap_all_height, present, Tree};

verus! {

/// The model of an optional node.
pub open spec fn node_view(node: Option<&ZendAst>) -> Option<Tree> {
    match node {
        Some(n) => Some(n@),
        None => None,
    }
}

/// The pattern that stands for `pattern` under `bindings`: `pattern` without
/// its wrappers and, while that is a capture that is bound, what it holds in
/// its place; `None` where the captures lead back to one another.
pub fn resolve_pattern<'a>(pattern: &'a ZendAst, bindings: &Bindings<'a>) -> (found: Option<
    &'a ZendAst,
>)
    ensures
        node_view(found) == resolved(pattern@, bindings@),
{
    let mut current: &ZendAst = pattern;
    let mut hops: usize = bindings.len();
    loop
        invariant
            resolve(current@, bindings@, hops as nat) == resolved(pattern@, bindings@),
        decreases hops,
    {
        let inner = unwrap_all(current);
        match is_bind_param(inner) {
            Some(name) => match bindings.get(&name) {
                Some(held) => {
                    if hops == 0 {
                        return None;
                    }
                    current = held;
                    hops = hops - 1;
                },
                None => {
                    return Some(inner);
                },
            },
            None => {
                return Some(inner);
            },
        }
    }
}

/// Whether two optional literals are identical.
fn identical_values(a: &ZendAst, b: &ZendAst) -> (same: bool)
    ensures
        same == identical(a@.value, b@.value),
{
    match (&a.value, &b.value) {
        (Some(x), Some(y)) => x.value.is_identical(&y.value),
        (None, None) => true,
        _ => false,
    }
}

/// Matches `pattern` against `zast` and records in `bindings` what each
/// capture of the pattern has captured.
///
/// Returns whether the pattern matched. Where it did not, `bindings` holds
/// what was captured up to the point of failure.
pub fn pattern_match<'a>(pattern: &ZendAst, zast: &'a ZendAst, bindings: &mut Bindings<'a>) -> (matched:
    bool)
    ensures
        match_node(pattern@, zast@, old(bindings)@) == (Outcome {
            matched,
            bindings: final(bindings)@,
        }),
    decreases height(zast@), 0nat,
{
    let subject = unwrap_all(zast);
    match resolve_pattern(pattern, bindings) {
        None => false,
        Some(found) => match is_bind_param(found) {
            Some(name) => {
                bindings.insert(name, subject);
                true
            },
            None => {
                if found.kind != subject.kind {
                    return false;
                }
                if found.attr != subject.attr {
                    return false;
                }
                if found.kind == Kind::Zval && !identical_values(found, subject) {
                    return false;
                }
                let children1 = get_children(found);
                let children2 = get_children(subject);
                if children1.len() != children2.len() {
                    return false;
                }
                assert(same_head(found@, subject@));
                let count = children1.len();
                let ghost ps = present(found@.slots);
                let ghost ts = present(subject@.slots);
                let ghost start = bindings@;
                let mut i: usize = 0;
                proof {
                    assert(ps.subrange(0, count as int) =~= ps);
                    assert(ts.subrange(0, count as int) =~= ts);
                    lemma_unwrap_all_height(zast@);
                    lemma_present_height(subject@.slots);
                }
                while i < count
                    invariant
                        i <= count,
                        count == children1@.len(),
                        count == children2@.len(),
                        views(children1@) == ps,
                        views(children2@) == ts,
                        forall|k: int| 0 <= k < ts.len() ==> height(#[trigger] ts[k]) < height(zast@),
                        match_node(pattern@, zast@, old(bindings)@) == match_children(ps, ts, start),
                        match_children(ps, ts, start) == match_children(
                            ps.subrange(i as int, count as int),
                            ts.subrange(i as int, count as int),
                            bindings@,
                        ),
                    decreases count - i,
                {
                    let ghost rest_ps = ps.subrange(i as int, count as int);
                    let ghost rest_ts = ts.subrange(i as int, count as int);
                    proof {
                        assert(rest_ps[0] == children1@[i as int]@);
                        assert(rest_ts[0] == children2@[i as int]@);
                        assert(rest_ps.drop_first() =~= ps.subrange(i + 1, count as int));
                        assert(rest_ts.drop_first() =~= ts.subrange(i + 1, count as int));
                        assert(ts[i as int] == children2@[i as int]@);
                    }
                    let ghost before = bindings@;
                    let matched = pattern_match(children1[i], children2[i], bindings);
                    proof {
                        let first = match_node(rest_ps[0], rest_ts[0], before);
                        assert(first == (Outcome { matched, bindings: bindings@ }));
                        assert(match_children(rest_ps, rest_ts, before) == if first.matched {
                            match_children(rest_ps.drop_first(), rest_ts.drop_first(), first.bindings)
                        } else {
                            first
                        });
                    }
                    if !matched {
                        return false;
                    }
                    i = i + 1;
                }
                true
            },
        },
    }
}

} // verus!
