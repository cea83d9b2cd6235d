//! The registry: the ordered list of the rules that the driver applies.

use vstd::prelude::*;
use crate::ast::ZendAstPtr;
use crate::context::{template, PhpContext, Sources};
use crate::rules::branch_elim::BranchElimination;
use crate::rules::cond_elim::ConditionalElimination;
use crate::rules::custom::CustomSubstitution;
use crate::rules::incr_decr::IncrDecr;
use crate::rules::instanceof::InstanceOf;
use crate::rules::loop_unroll::LoopUnroll;
use crate::rules::AstOptimizationRule;
use crate::tree::Tree;

verus! {

/// A rule that the registry can hold: one of the built-in rules, or a rule
/// registered from outside.
#[derive(Debug)]
pub enum Rule {
    ConditionalElimination(ConditionalElimination),
    BranchElimination(BranchElimination),
    IncrDecr(IncrDecr),
    InstanceOf(InstanceOf),
    LoopUnroll(LoopUnroll),
    Custom(CustomSubstitution),
}

impl AstOptimizationRule for Rule {
    open spec fn rewritten(&self, sources: Sources, node: Tree) -> Option<Tree> {
        match self {
            Rule::ConditionalElimination(r) => r.rewritten(sources, node),
            Rule::BranchElimination(r) => r.rewritten(sources, node),
            Rule::IncrDecr(r) => r.rewritten(sources, node),
            Rule::InstanceOf(r) => r.rewritten(sources, node),
            Rule::LoopUnroll(r) => r.rewritten(sources, node),
            Rule::Custom(r) => r.rewritten(sources, node),
        }
    }

    open spec fn traced(&self, sources: Sources, node: Tree) -> Seq<Seq<char>> {
        match self {
            Rule::ConditionalElimination(r) => r.traced(sources, node),
            Rule::BranchElimination(r) => r.traced(sources, node),
            Rule::IncrDecr(r) => r.traced(sources, node),
            Rule::InstanceOf(r) => r.traced(sources, node),
            Rule::LoopUnroll(r) => r.traced(sources, node),
            Rule::Custom(r) => r.traced(sources, node),
        }
    }

    fn optimize(&self, ast: &mut ZendAstPtr, context: &mut PhpContext) {
        match self {
            Rule::ConditionalElimination(r) => r.optimize(ast, context),
            Rule::BranchElimination(r) => r.optimize(ast, context),
            Rule::IncrDecr(r) => r.optimize(ast, context),
            Rule::InstanceOf(r) => r.optimize(ast, context),
            Rule::LoopUnroll(r) => r.optimize(ast, context),
            Rule::Custom(r) => r.optimize(ast, context),
        }
    }
}

/// The rules of a registry, in the order in which the driver applies them.
pub type RulesVec = Vec<Rule>;

/// The built-in rules, in their fixed order.
pub open spec fn spec_builtin_rules() -> Seq<Rule> {
    seq![
        Rule::ConditionalElimination(ConditionalElimination),
        Rule::BranchElimination(BranchElimination),
        Rule::IncrDecr(IncrDecr),
        Rule::InstanceOf(InstanceOf),
        Rule::LoopUnroll(LoopUnroll),
    ]
}

/// A registry that holds the built-in rules, in their fixed order.
pub fn builtin_rules() -> (rules: RulesVec)
    ensures
        rules@ == spec_builtin_rules(),
{
    let mut rules: RulesVec = Vec::new();
    rules.push(Rule::ConditionalElimination(ConditionalElimination::new()));
    rules.push(Rule::BranchElimination(BranchElimination::new()));
    rules.push(Rule::IncrDecr(IncrDecr::new()));
    rules.push(Rule::InstanceOf(InstanceOf::new()));
    rules.push(Rule::LoopUnroll(LoopUnroll::new()));
    assert(rules@ =~= spec_builtin_rules());
    rules
}

/// Appends `rule` to the registry, behind every rule that it holds.
pub fn add_rule(rules: &mut RulesVec, rule: Rule)
    ensures
        final(rules)@ == old(rules)@.push(rule),
{
    rules.push(rule);
}

/// Registers the rule of the pair `search` and `replace`: appends it to the
/// registry where the context holds a tree for each of the two texts, and
/// leaves the registry as it is where it lacks one. Returns whether the rule
/// was registered.
pub fn register_rule(
    rules: &mut RulesVec,
    context: &PhpContext,
    search: String,
    replace: String,
) -> (registered: bool)
    ensures
        registered <==> template(context.sources(), search@) is Some && template(
            context.sources(),
            replace@,
        ) is Some,
        !registered ==> final(rules)@ == old(rules)@,
        registered ==> final(rules)@.len() == old(rules)@.len() + 1 && final(rules)@.drop_last()
            == old(rules)@ && (final(rules)@.last() matches Rule::Custom(r) && r.search()
            == search@ && r.replacement() == replace@),
{
    match CustomSubstitution::try_create(search, replace, context) {
        Some(rule) => {
            add_rule(rules, Rule::Custom(rule));
            assert(rules@.drop_last() =~= old(rules)@);
            true
        },
        None => false,
    }
}

} // verus!
