//! Rules registered from outside.

use vstd::prelude::*;
use crate::ast::ZendAstPtr;
use crate::context::{parse_pattern, template, PhpContext, Sources};
use crate::rules::{map_sub, pair_rewrite, pair_trace, AstOptimizationRule};
use crate::tree::Tree;

verus! {

/// A rule of one search and replace pair, given as two texts.
#[derive(Debug)]
pub struct CustomSubstitution {
    from_pattern: String,
    to_pattern: String,
}

impl CustomSubstitution {
    /// The text of the search pattern.
    pub closed spec fn search(&self) -> Seq<char> {
        self.from_pattern@
    }

    /// The text of the replacement.
    pub closed spec fn replacement(&self) -> Seq<char> {
        self.to_pattern@
    }

    /// The rule of the pair `from` and `to`, where the context holds a tree
    /// for each of the two texts; `None` where it lacks one.
    pub fn try_create(from: String, to: String, context: &PhpContext) -> (rule: Option<Self>)
        ensures
            rule is Some <==> template(context.sources(), from@) is Some && template(
                context.sources(),
                to@,
            ) is Some,
            rule matches Some(r) ==> r.search() == from@ && r.replacement() == to@,
    {
        if parse_pattern(from.as_str(), context).is_some() && parse_pattern(
            to.as_str(),
            context,
        ).is_some() {
            Some(CustomSubstitution::new(from, to))
        } else {
            None
        }
    }

    /// The rule of the pair `from` and `to`.
    pub fn new(from: String, to: String) -> (rule: Self)
        ensures
            rule.search() == from@,
            rule.replacement() == to@,
    {
        CustomSubstitution { from_pattern: from, to_pattern: to }
    }
}

impl AstOptimizationRule for CustomSubstitution {
    open spec fn rewritten(&self, sources: Sources, node: Tree) -> Option<Tree> {
        pair_rewrite(sources, self.search(), self.replacement(), node)
    }

    open spec fn traced(&self, sources: Sources, node: Tree) -> Seq<Seq<char>> {
        pair_trace(sources, self.search(), self.replacement(), node)
    }

    fn optimize(&self, ast: &mut ZendAstPtr, context: &mut PhpContext) {
        map_sub(self.from_pattern.as_str(), self.to_pattern.as_str(), ast, context);
    }
}

} // verus!
