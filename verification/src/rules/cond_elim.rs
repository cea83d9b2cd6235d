//! Elimination of constant operands of `&&` and `||`.

use vstd::prelude::*;
use crate::ast::ZendAstPtr;
use crate::context::{PhpContext, Sources};
use crate::rules::{
    apply_pairs, optimize_with, pair, pairs_rewritten, texts_view, AstOptimizationRule,
};
use crate::tree::Tree;

verus! {

/// Removes a constant operand from a short-circuit conjunction or
/// disjunction.
#[derive(Debug)]
pub struct ConditionalElimination;

impl ConditionalElimination {
    /// The rule.
    pub fn new() -> (rule: Self)
        ensures
            rule == ConditionalElimination,
    {
        ConditionalElimination
    }

    /// The search and replace pairs of the rule, in the order in which it
    /// applies them.
    pub open spec fn spec_templates() -> Seq<(Seq<char>, Seq<char>)> {
        seq![
            ("true && PPHP::$_1;"@, "PPHP::$_1;"@),
            ("PPHP::$_1 && true;"@, "PPHP::$_1;"@),
            ("true || PPHP::$_1;"@, "true;"@),
            ("PPHP::$_1 || true;"@, "true;"@),
            ("false && PPHP::$_1;"@, "false;"@),
            ("PPHP::$_1 && false;"@, "false;"@),
            ("false || PPHP::$_1;"@, "PPHP::$_1;"@),
            ("PPHP::$_1 || false;"@, "PPHP::$_1;"@),
        ]
    }

    /// The search and replace pairs of the rule, in the order in which it
    /// applies them.
    pub fn templates() -> (pairs: Vec<(String, String)>)
        ensures
            texts_view(pairs@) == Self::spec_templates(),
    {
        let mut pairs: Vec<(String, String)> = Vec::new();
        pairs.push(pair("true && PPHP::$_1;", "PPHP::$_1;"));
        pairs.push(pair("PPHP::$_1 && true;", "PPHP::$_1;"));
        pairs.push(pair("true || PPHP::$_1;", "true;"));
        pairs.push(pair("PPHP::$_1 || true;", "true;"));
        pairs.push(pair("false && PPHP::$_1;", "false;"));
        pairs.push(pair("PPHP::$_1 && false;", "false;"));
        pairs.push(pair("false || PPHP::$_1;", "PPHP::$_1;"));
        pairs.push(pair("PPHP::$_1 || false;", "PPHP::$_1;"));
        assert(texts_view(pairs@) =~= Self::spec_templates());
        pairs
    }
}

impl AstOptimizationRule for ConditionalElimination {
    open spec fn rewritten(&self, sources: Sources, node: Tree) -> Option<Tree> {
        pairs_rewritten(sources, Self::spec_templates(), node)
    }

    open spec fn traced(&self, sources: Sources, node: Tree) -> Seq<Seq<char>> {
        apply_pairs(sources, Self::spec_templates(), node).trace
    }

    fn optimize(&self, ast: &mut ZendAstPtr, context: &mut PhpContext) {
        let pairs = Self::templates();
        optimize_with(&pairs, ast, context);
    }
}

} // verus!
