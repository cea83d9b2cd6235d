//! Loop unrolling.

use vstd::prelude::*;
use crate::ast::ZendAstPtr;
use crate::context::{PhpContext, Sources};
use crate::rules::AstOptimizationRule;
use crate::tree::Tree;

verus! {

/// The place of a rule that unrolls loops. It replaces nothing.
#[derive(Debug)]
pub struct LoopUnroll;

impl LoopUnroll {
    /// The rule.
    pub fn new() -> (rule: Self)
        ensures
            rule == LoopUnroll,
    {
        LoopUnroll
    }
}

impl AstOptimizationRule for LoopUnroll {
    open spec fn rewritten(&self, sources: Sources, node: Tree) -> Option<Tree> {
        None
    }

    open spec fn traced(&self, sources: Sources, node: Tree) -> Seq<Seq<char>> {
        Seq::empty()
    }

    fn optimize(&self, ast: &mut ZendAstPtr, context: &mut PhpContext) {
        assert(context.trace() =~= context.trace() + Seq::<Seq<char>>::empty());
    }
}

} // verus!
