//! `is_a` as `instanceof`.

use vstd::prelude::*;
use crate::ast::ZendAstPtr;
use crate::context::{PhpContext, Sources};
use crate::rules::{
    apply_pairs, optimize_with, pair, pairs_rewritten, texts_view, AstOptimizationRule,
};
use crate::tree::Tree;

verus! {

/// Replaces a call of `is_a` with the `instanceof` construct.
#[derive(Debug)]
pub struct InstanceOf;

impl InstanceOf {
    /// The rule.
    pub fn new() -> (rule: Self)
        ensures
            rule == InstanceOf,
    {
        InstanceOf
    }

    /// The search and replace pairs of the rule, in the order in which it
    /// applies them.
    pub open spec fn spec_templates() -> Seq<(Seq<char>, Seq<char>)> {
        seq![
            ("is_a(PPHP::$_1, PPHP::$_2);"@, "PPHP::$_1 instanceof PPHP::$_2;"@),
        ]
    }

    /// The search and replace pairs of the rule, in the order in which it
    /// applies them.
    pub fn templates() -> (pairs: Vec<(String, String)>)
        ensures
            texts_view(pairs@) == Self::spec_templates(),
    {
        let mut pairs: Vec<(String, String)> = Vec::new();
        pairs.push(pair("is_a(PPHP::$_1, PPHP::$_2);", "PPHP::$_1 instanceof PPHP::$_2;"));
        assert(texts_view(pairs@) =~= Self::spec_templates());
        pairs
    }
}

impl AstOptimizationRule for InstanceOf {
    open spec fn rewritten(&self, sources: Sources, node: Tree) -> Option<Tree> {
        pairs_rewritten(sources, Self::spec_templates(), node)
    }

    open spec fn traced(&self, sources: Sources, node: Tree) -> Seq<Seq<char>> {
        apply_pairs(sources, Self::spec_templates(), node).trace
    }

    fn optimize(&self, ast: &mut ZendAstPtr, context: &mut PhpContext) {
        let pairs = Self::templates();
        optimize_with(&pairs, ast, context);
    }
}

} // verus!
