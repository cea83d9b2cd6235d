//! Rules, the registry of rules, and the driver that applies them to a
//! fixpoint.

use vstd::prelude::*;
use vstd::string::StringExecFns;
use crate::ast::{into_unwrapped, ZendAst, ZendAstPtr};
use crate::bindings::Bindings;
use crate::context::{parse_pattern, template, PhpContext, Sources};
use crate::matcher::pattern_match;
use crate::pattern::rewrite;
use crate::substituter::{bind_sub, binds_all};
use crate::tracer::{report, trace_report};
use crate::tree::Tree;

pub mod branch_elim;
pub mod cond_elim;
pub mod custom;
pub mod driver;
pub mod incr_decr;
pub mod instanceof;
pub mod loop_unroll;
pub mod registry;

verus! {

/// A rule: something that may replace the node in a slot.
pub trait AstOptimizationRule {
    /// What the rule puts in the place of `node`, given the parse results
    /// `sources`; `None` where it leaves the node alone.
    spec fn rewritten(&self, sources: Sources, node: Tree) -> Option<Tree>;

    /// The lines that the rule traces of its work on `node` while tracing is
    /// on.
    spec fn traced(&self, sources: Sources, node: Tree) -> Seq<Seq<char>>;

    /// Processes the node in the slot `ast`: replaces it where the rule
    /// applies, which marks the slot dirty, and leaves the slot as it is
    /// where it does not.
    fn optimize(&self, ast: &mut ZendAstPtr, context: &mut PhpContext)
        ensures
            final(context).sources() == old(context).sources(),
            final(context).options() == old(context).options(),
            final(context).trace() == old(context).trace() + (if old(
                context,
            ).options().debug_trace {
                self.traced(old(context).sources(), old(ast)@)
            } else {
                Seq::empty()
            }),
            match self.rewritten(old(context).sources(), old(ast)@) {
                Some(new) => final(ast)@ == new && final(ast).is_dirty(),
                None => final(ast)@ == old(ast)@ && final(ast).is_dirty() == old(ast).is_dirty(),
            },
    ;
}

/// What a node has become under a list of search and replace pairs, and what
/// was traced on the way.
pub ghost struct Applied {
    /// The node after the last pair.
    pub node: Tree,
    /// Whether any pair has replaced the node.
    pub dirty: bool,
    /// The lines traced while tracing is on.
    pub trace: Seq<Seq<char>>,
}

/// What the pair of the texts `search` and `replace` makes of `node`: what
/// their trees make of it, where `sources` holds a tree for each text;
/// `None` otherwise.
pub open spec fn pair_rewrite(
    sources: Sources,
    search: Seq<char>,
    replace: Seq<char>,
    node: Tree,
) -> Option<Tree> {
    match (template(sources, search), template(sources, replace)) {
        (Some(p), Some(r)) => rewrite(p, r, node),
        _ => None,
    }
}

/// What the pair of the texts `search` and `replace` traces of its work on
/// `node` while tracing is on: a report where it replaces the node, nothing
/// where it does not.
pub open spec fn pair_trace(
    sources: Sources,
    search: Seq<char>,
    replace: Seq<char>,
    node: Tree,
) -> Seq<Seq<char>> {
    match (template(sources, search), pair_rewrite(sources, search, replace, node)) {
        (Some(p), Some(new)) => report(p, node, new),
        _ => Seq::empty(),
    }
}

/// What `pairs` make of `node`, each pair in turn applied to what the pairs
/// before it have left.
pub open spec fn apply_pairs(
    sources: Sources,
    pairs: Seq<(Seq<char>, Seq<char>)>,
    node: Tree,
) -> Applied
    decreases pairs.len(),
{
    if pairs.len() == 0 {
        Applied { node, dirty: false, trace: Seq::empty() }
    } else {
        let before = apply_pairs(sources, pairs.drop_last(), node);
        let (search, replace) = pairs.last();
        let trace = before.trace + pair_trace(sources, search, replace, before.node);
        match pair_rewrite(sources, search, replace, before.node) {
            Some(new) => Applied { node: new, dirty: true, trace },
            None => Applied { trace, ..before },
        }
    }
}

/// Replaces the node in the slot `ast` where the pattern `search` matches
/// it: with the replacement `replace`, into which the captures of the match
/// are put, without its wrappers. Nothing happens where the context holds no
/// tree for one of the two texts, where the pattern does not match, or where
/// the replacement holds a capture that the match has not made.
pub fn map_sub(search: &str, replace: &str, ast: &mut ZendAstPtr, context: &mut PhpContext)
    ensures
        final(context).sources() == old(context).sources(),
        final(context).options() == old(context).options(),
        final(context).trace() == old(context).trace() + (if old(context).options().debug_trace {
            pair_trace(old(context).sources(), search@, replace@, old(ast)@)
        } else {
            Seq::empty()
        }),
        match pair_rewrite(old(context).sources(), search@, replace@, old(ast)@) {
            Some(new) => final(ast)@ == new && final(ast).is_dirty(),
            None => final(ast)@ == old(ast)@ && final(ast).is_dirty() == old(ast).is_dirty(),
        },
{
    let tracing = context.debug_trace();
    let mut found: Option<(ZendAst, Vec<String>)> = None;
    match (parse_pattern(search, context), parse_pattern(replace, context)) {
        (Some(pattern), Some(replacement)) => {
            let mut bindings = Bindings::new();
            if pattern_match(pattern, ast.deref(), &mut bindings) {
                if binds_all(&bindings, replacement) {
                    let mut fresh = replacement.duplicate();
                    bind_sub(&mut fresh, &bindings);
                    let new = into_unwrapped(fresh);
                    let lines = if tracing {
                        trace_report(pattern, ast.deref(), &new)
                    } else {
                        Vec::new()
                    };
                    found = Some((new, lines));
                }
            }
        },
        _ => {},
    }
    match found {
        Some((new, lines)) => {
            ast.replace(new);
            context.append_trace(lines);
        },
        None => {
            assert(context.trace() =~= context.trace() + Seq::<Seq<char>>::empty());
        },
    }
}

/// Applies each of `pairs` in turn to the slot `ast`.
pub fn apply_templates(pairs: &Vec<(String, String)>, ast: &mut ZendAstPtr, context: &mut PhpContext)
    ensures
        final(context).sources() == old(context).sources(),
        final(context).options() == old(context).options(),
        final(context).trace() == old(context).trace() + (if old(context).options().debug_trace {
            apply_pairs(old(context).sources(), texts_view(pairs@), old(ast)@).trace
        } else {
            Seq::empty()
        }),
        final(ast)@ == apply_pairs(old(context).sources(), texts_view(pairs@), old(ast)@).node,
        final(ast).is_dirty() == (old(ast).is_dirty() || apply_pairs(
            old(context).sources(),
            texts_view(pairs@),
            old(ast)@,
        ).dirty),
{
    let ghost sources = context.sources();
    let ghost texts = texts_view(pairs@);
    let mut i: usize = 0;
    proof {
        assert(texts.take(0) =~= Seq::empty());
        assert(context.trace() =~= old(context).trace() + Seq::<Seq<char>>::empty());
    }
    while i < pairs.len()
        invariant
            i <= pairs.len(),
            texts == texts_view(pairs@),
            sources == old(context).sources(),
            context.sources() == sources,
            context.options() == old(context).options(),
            context.trace() == old(context).trace() + (if old(context).options().debug_trace {
                apply_pairs(sources, texts.take(i as int), old(ast)@).trace
            } else {
                Seq::empty()
            }),
            ast@ == apply_pairs(sources, texts.take(i as int), old(ast)@).node,
            ast.is_dirty() == (old(ast).is_dirty() || apply_pairs(
                sources,
                texts.take(i as int),
                old(ast)@,
            ).dirty),
        decreases pairs.len() - i,
    {
        proof {
            assert(texts.take(i + 1).drop_last() =~= texts.take(i as int));
            assert(texts.take(i + 1).last() == (pairs@[i as int].0@, pairs@[i as int].1@));
        }
        let ghost before = context.trace();
        map_sub(pairs[i].0.as_str(), pairs[i].1.as_str(), ast, context);
        proof {
            let prev = apply_pairs(sources, texts.take(i as int), old(ast)@);
            let step = pair_trace(sources, pairs@[i as int].0@, pairs@[i as int].1@, prev.node);
            if old(context).options().debug_trace {
                assert(context.trace() =~= old(context).trace() + (prev.trace + step));
            } else {
                assert(context.trace() =~= old(context).trace() + Seq::<Seq<char>>::empty());
            }
        }
        i = i + 1;
    }
    proof {
        assert(texts.take(pairs@.len() as int) =~= texts);
    }
}

/// The texts of `pairs`.
pub open spec fn texts_view(pairs: Seq<(String, String)>) -> Seq<(Seq<char>, Seq<char>)> {
    Seq::new(pairs.len(), |i: int| (pairs[i].0@, pairs[i].1@))
}

/// What a rule that is a list of pairs puts in the place of `node`.
pub open spec fn pairs_rewritten(
    sources: Sources,
    pairs: Seq<(Seq<char>, Seq<char>)>,
    node: Tree,
) -> Option<Tree> {
    let applied = apply_pairs(sources, pairs, node);
    if applied.dirty {
        Some(applied.node)
    } else {
        None
    }
}

/// Pairs that replace nothing leave the node as it is.
pub proof fn lemma_apply_pairs_clean(
    sources: Sources,
    pairs: Seq<(Seq<char>, Seq<char>)>,
    node: Tree,
)
    ensures
        !apply_pairs(sources, pairs, node).dirty ==> apply_pairs(sources, pairs, node).node
            == node,
    decreases pairs.len(),
{
    if pairs.len() > 0 {
        lemma_apply_pairs_clean(sources, pairs.drop_last(), node);
    }
}

/// Applies each of `pairs` in turn to the slot `ast`, as a rule does that is
/// this list of pairs.
pub fn optimize_with(pairs: &Vec<(String, String)>, ast: &mut ZendAstPtr, context: &mut PhpContext)
    ensures
        final(context).sources() == old(context).sources(),
        final(context).options() == old(context).options(),
        final(context).trace() == old(context).trace() + (if old(context).options().debug_trace {
            apply_pairs(old(context).sources(), texts_view(pairs@), old(ast)@).trace
        } else {
            Seq::empty()
        }),
        match pairs_rewritten(old(context).sources(), texts_view(pairs@), old(ast)@) {
            Some(new) => final(ast)@ == new && final(ast).is_dirty(),
            None => final(ast)@ == old(ast)@ && final(ast).is_dirty() == old(ast).is_dirty(),
        },
{
    proof {
        lemma_apply_pairs_clean(context.sources(), texts_view(pairs@), ast@);
    }
    apply_templates(pairs, ast, context);
}

/// A pair of texts.
pub fn pair(search: &str, replace: &str) -> (texts: (String, String))
    ensures
        texts.0@ == search@,
        texts.1@ == replace@,
{
    (String::from_str(search), String::from_str(replace))
}

} // verus!
