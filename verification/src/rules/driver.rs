//! The fixpoint driver: applies every rule at every node, and repeats full
//! passes until one of them changes nothing.

use vstd::prelude::*;
use crate::ast::{lemma_view_slots, slot_view, ZendAst, ZendAstPtr};
use crate::context::{PhpContext, Sources};
use crate::kind::Kind;
use crate::rules::AstOptimizationRule;
use crate::tree::{height, lemma_slot_height, lemma_slots_height_drop_first, slots_height, Tree};

verus! {

/// What a walk has made of a tree or of a row of slots.
pub ghost struct Walked<T> {
    /// What the walk has left.
    pub out: T,
    /// How many nodes the walk has replaced.
    pub rewrites: nat,
    /// The lines that the rules trace on the walk while tracing is on.
    pub trace: Seq<Seq<char>>,
}

/// What is left of a budget of `fuel` replacements after `used` of them.
pub open spec fn left(fuel: nat, used: nat) -> nat {
    if used <= fuel {
        (fuel - used) as nat
    } else {
        0
    }
}

/// One rule walking the tree `node` in pre-order, with a budget of `fuel`
/// replacements.
///
/// The rule is applied at the node first. Then the walk goes on into the
/// children of what stands there now: of the replacement, where the rule has
/// replaced the node. Each replacement takes one unit of the budget; a walk
/// that has no budget left applies no rule and changes nothing.
pub open spec fn visit<R: AstOptimizationRule>(
    rule: R,
    sources: Sources,
    node: Tree,
    fuel: nat,
) -> Walked<Tree>
    decreases fuel, height(node), 0nat,
{
    if fuel == 0 {
        Walked { out: node, rewrites: 0, trace: Seq::empty() }
    } else {
        let traced = rule.traced(sources, node);
        match rule.rewritten(sources, node) {
            Some(new) => {
                let below = visit_slots(rule, sources, new.slots, (fuel - 1) as nat);
                Walked {
                    out: Tree { slots: below.out, ..new },
                    rewrites: 1 + below.rewrites,
                    trace: traced + below.trace,
                }
            },
            None => {
                let below = visit_slots(rule, sources, node.slots, fuel);
                Walked {
                    out: Tree { slots: below.out, ..node },
                    rewrites: below.rewrites,
                    trace: traced + below.trace,
                }
            },
        }
    }
}

/// One rule walking the children in `slots`, from left to right, with a
/// budget of `fuel` replacements for all of them.
pub open spec fn visit_slots<R: AstOptimizationRule>(
    rule: R,
    sources: Sources,
    slots: Seq<Option<Tree>>,
    fuel: nat,
) -> Walked<Seq<Option<Tree>>>
    decreases fuel, slots_height(slots), 1 + slots.len(),
{
    if slots.len() == 0 {
        Walked { out: Seq::empty(), rewrites: 0, trace: Seq::empty() }
    } else {
        proof {
            lemma_slots_height_drop_first(slots);
            if slots[0] is Some {
                lemma_slot_height(slots, 0);
            }
        }
        let first = match slots[0] {
            Some(child) => {
                let walked = visit(rule, sources, child, fuel);
                Walked { out: Some(walked.out), rewrites: walked.rewrites, trace: walked.trace }
            },
            None => Walked { out: None, rewrites: 0, trace: Seq::empty() },
        };
        let rest = visit_slots(rule, sources, slots.drop_first(), left(fuel, first.rewrites));
        Walked {
            out: seq![first.out] + rest.out,
            rewrites: first.rewrites + rest.rewrites,
            trace: first.trace + rest.trace,
        }
    }
}

/// One full pass: each of `rules` in turn walks the whole tree, as the rules
/// before it have left it, with what they have left of the budget.
pub open spec fn pass<R: AstOptimizationRule>(
    rules: Seq<R>,
    sources: Sources,
    root: Tree,
    fuel: nat,
) -> Walked<Tree>
    decreases rules.len(),
{
    if rules.len() == 0 {
        Walked { out: root, rewrites: 0, trace: Seq::empty() }
    } else {
        let before = pass(rules.drop_last(), sources, root, fuel);
        let last = visit(rules.last(), sources, before.out, left(fuel, before.rewrites));
        Walked {
            out: last.out,
            rewrites: before.rewrites + last.rewrites,
            trace: before.trace + last.trace,
        }
    }
}

/// How a run of the driver ended.
pub ghost struct Run {
    /// The tree that the run has left.
    pub out: Tree,
    /// Whether the last pass was a full pass that replaced nothing.
    pub converged: bool,
    /// How many nodes the run has replaced.
    pub rewrites: nat,
    /// The lines that the rules trace on the run while tracing is on.
    pub trace: Seq<Seq<char>>,
}

/// Full passes over the tree `root`, one after the other, until a pass
/// replaces nothing or the budget of `fuel` replacements is used up.
pub open spec fn run<R: AstOptimizationRule>(
    rules: Seq<R>,
    sources: Sources,
    root: Tree,
    fuel: nat,
) -> Run
    decreases fuel,
{
    if fuel == 0 {
        Run { out: root, converged: false, rewrites: 0, trace: Seq::empty() }
    } else {
        let first = pass(rules, sources, root, fuel);
        if first.rewrites == 0 {
            Run { out: first.out, converged: true, rewrites: 0, trace: first.trace }
        } else {
            let rest = run(rules, sources, first.out, left(fuel, first.rewrites));
            Run {
                out: rest.out,
                converged: rest.converged,
                rewrites: first.rewrites + rest.rewrites,
                trace: first.trace + rest.trace,
            }
        }
    }
}

/// Lets `rule` walk the tree `ast` in pre-order: the rule is applied at
/// each node, and then at the children of what stands there afterwards.
///
/// `budget` is the number of replacements that the walk may still make; each
/// replacement takes one from it. With a budget of 0 the walk applies no
/// rule.
pub fn node_walk<R: AstOptimizationRule>(
    rule: &R,
    ast: &mut ZendAst,
    context: &mut PhpContext,
    budget: &mut usize,
)
    ensures
        final(ast)@ == visit(*rule, old(context).sources(), old(ast)@, *old(budget) as nat).out,
        *final(budget) == *old(budget) - visit(
            *rule,
            old(context).sources(),
            old(ast)@,
            *old(budget) as nat,
        ).rewrites,
        final(context).sources() == old(context).sources(),
        final(context).options() == old(context).options(),
        final(context).trace() == old(context).trace() + (if old(context).options().debug_trace {
            visit(*rule, old(context).sources(), old(ast)@, *old(budget) as nat).trace
        } else {
            Seq::empty()
        }),
    decreases *old(budget), height(old(ast)@),
{
    let ghost sources = context.sources();
    let ghost tracing = context.options().debug_trace;
    let ghost whole = visit(*rule, sources, ast@, *budget as nat);
    if *budget == 0 {
        assert(context.trace() =~= context.trace() + Seq::<Seq<char>>::empty());
        return ;
    }
    let mut taken = ZendAst::new(Kind::StmtList, 0, Vec::new());
    core::mem::swap(ast, &mut taken);
    let mut slot = ZendAstPtr::new(taken);
    rule.optimize(&mut slot, context);
    if slot.is_dirty() {
        slot.set_dirty(false);
        *budget = *budget - 1;
    }
    *ast = slot.into_node();
    let ghost start = ast@;
    let ghost fuel = *budget as nat;
    let ghost below = visit_slots(*rule, sources, start.slots, fuel);
    let ghost head_trace = context.trace();
    let ghost done: Seq<Seq<char>> = Seq::empty();
    let count = ast.child.len();
    let mut i: usize = 0;
    proof {
        lemma_view_slots(ast);
        assert(start.slots.skip(0) =~= start.slots);
        assert(ast@.slots.take(0) =~= Seq::empty());
        assert(seq![].add(below.out) =~= below.out) by {
            assert(Seq::<Option<Tree>>::empty() + below.out =~= below.out);
        }
        assert(done + below.trace =~= below.trace);
        assert(head_trace =~= head_trace + done);
    }
    while i < count
        invariant
            i <= count,
            count == ast.child@.len(),
            count == start.slots.len(),
            ast.kind == start.kind,
            ast.attr == start.attr,
            ast@.value == start.value,
            ast@.name == start.name,
            sources == old(context).sources(),
            context.sources() == sources,
            context.options() == old(context).options(),
            tracing == old(context).options().debug_trace,
            *budget <= fuel,
            fuel <= *old(budget),
            fuel < *old(budget) || start == old(ast)@,
            below == visit_slots(*rule, sources, start.slots, fuel),
            forall|j: int| i <= j < count ==> slot_view(#[trigger] ast.child@[j]) == start.slots[j],
            ({
                let rest = visit_slots(*rule, sources, start.slots.skip(i as int), *budget as nat);
                &&& below.out == ast@.slots.take(i as int) + rest.out
                &&& below.rewrites == (fuel - *budget) + rest.rewrites
                &&& below.trace == done + rest.trace
            }),
            context.trace() == head_trace + (if tracing {
                done
            } else {
                Seq::empty()
            }),
        decreases count - i,
    {
        let ghost remaining = start.slots.skip(i as int);
        let ghost before_slots = ast@.slots;
        let ghost before_budget = *budget;
        let ghost before_trace = context.trace();
        proof {
            lemma_view_slots(ast);
            assert(remaining[0] == start.slots[i as int]);
            assert(remaining.drop_first() =~= start.slots.skip(i + 1));
        }
        match &mut ast.child[i] {
            Some(child) => {
                proof {
                    lemma_slot_height(start.slots, i as int);
                }
                node_walk(rule, child, context, budget);
            },
            None => {
                assert(context.trace() =~= context.trace() + Seq::<Seq<char>>::empty());
            },
        }
        proof {
            lemma_view_slots(ast);
            let first = match remaining[0] {
                Some(c) => {
                    let walked = visit(*rule, sources, c, before_budget as nat);
                    Walked::<Option<Tree>> {
                        out: Some(walked.out),
                        rewrites: walked.rewrites,
                        trace: walked.trace,
                    }
                },
                None => Walked::<Option<Tree>> { out: None, rewrites: 0, trace: Seq::empty() },
            };
            let rest = visit_slots(*rule, sources, start.slots.skip(i + 1), *budget as nat);
            assert(visit_slots(*rule, sources, remaining, before_budget as nat) == (Walked {
                out: seq![first.out] + rest.out,
                rewrites: first.rewrites + rest.rewrites,
                trace: first.trace + rest.trace,
            }));
            assert(ast@.slots.take(i + 1) =~= before_slots.take(i as int) + seq![first.out]);
            assert(below.out =~= ast@.slots.take(i + 1) + rest.out);
            assert(below.trace =~= (done + first.trace) + rest.trace);
            if tracing {
                assert(context.trace() =~= head_trace + (done + first.trace));
            } else {
                assert(context.trace() =~= head_trace + Seq::<Seq<char>>::empty());
            }
            done = done + first.trace;
        }
        i = i + 1;
    }
    proof {
        lemma_view_slots(ast);
        assert(start.slots.skip(count as int) =~= Seq::empty());
        assert(ast@.slots.take(count as int) =~= ast@.slots);
        assert(below.out =~= ast@.slots);
        assert(below.trace =~= done);
        assert(ast@ == (Tree { slots: below.out, ..start }));
        let traced = rule.traced(sources, old(ast)@);
        if tracing {
            assert(context.trace() =~= old(context).trace() + (traced + below.trace));
        } else {
            assert(context.trace() =~= old(context).trace() + Seq::<Seq<char>>::empty());
        }
    }
}

/// One full pass over the tree `ast`: each of `rules` in turn walks the
/// whole tree. Returns whether the pass has replaced a node.
pub fn full_pass<R: AstOptimizationRule>(
    rules: &Vec<R>,
    ast: &mut ZendAst,
    context: &mut PhpContext,
    budget: &mut usize,
) -> (modified: bool)
    ensures
        final(ast)@ == pass(rules@, old(context).sources(), old(ast)@, *old(budget) as nat).out,
        *final(budget) == *old(budget) - pass(
            rules@,
            old(context).sources(),
            old(ast)@,
            *old(budget) as nat,
        ).rewrites,
        modified == (pass(rules@, old(context).sources(), old(ast)@, *old(budget) as nat).rewrites
            > 0),
        final(context).sources() == old(context).sources(),
        final(context).options() == old(context).options(),
        final(context).trace() == old(context).trace() + (if old(context).options().debug_trace {
            pass(rules@, old(context).sources(), old(ast)@, *old(budget) as nat).trace
        } else {
            Seq::empty()
        }),
{
    let ghost sources = context.sources();
    let ghost tracing = context.options().debug_trace;
    let ghost fuel = *budget as nat;
    let start = *budget;
    let mut i: usize = 0;
    proof {
        assert(rules@.take(0) =~= Seq::empty());
        assert(context.trace() =~= context.trace() + Seq::<Seq<char>>::empty());
    }
    while i < rules.len()
        invariant
            i <= rules@.len(),
            start == fuel,
            fuel == *old(budget),
            sources == old(context).sources(),
            tracing == old(context).options().debug_trace,
            context.sources() == sources,
            context.options() == old(context).options(),
            ast@ == pass(rules@.take(i as int), sources, old(ast)@, fuel).out,
            *budget == fuel - pass(rules@.take(i as int), sources, old(ast)@, fuel).rewrites,
            context.trace() == old(context).trace() + (if tracing {
                pass(rules@.take(i as int), sources, old(ast)@, fuel).trace
            } else {
                Seq::empty()
            }),
        decreases rules@.len() - i,
    {
        proof {
            assert(rules@.take(i + 1).drop_last() =~= rules@.take(i as int));
            assert(rules@.take(i + 1).last() == rules@[i as int]);
        }
        let ghost before = pass(rules@.take(i as int), sources, old(ast)@, fuel);
        node_walk(&rules[i], ast, context, budget);
        proof {
            let last = visit(rules@[i as int], sources, before.out, left(fuel, before.rewrites));
            if tracing {
                assert(context.trace() =~= old(context).trace() + (before.trace + last.trace));
            } else {
                assert(context.trace() =~= old(context).trace() + Seq::<Seq<char>>::empty());
            }
        }
        i = i + 1;
    }
    proof {
        assert(rules@.take(rules@.len() as int) =~= rules@);
    }
    *budget < start
}

/// Applies every rule of `rules` at every node of the tree `ast`, in full
/// passes, until a full pass replaces nothing or `limit` replacements have
/// been made.
///
/// Returns whether the last pass was a full pass that replaced nothing: the
/// tree that is left is then one that the rules leave as it is.
pub fn apply_all<R: AstOptimizationRule>(
    ast: &mut ZendAst,
    rules: &Vec<R>,
    context: &mut PhpContext,
    limit: usize,
) -> (converged: bool)
    ensures
        final(ast)@ == run(rules@, old(context).sources(), old(ast)@, limit as nat).out,
        converged == run(rules@, old(context).sources(), old(ast)@, limit as nat).converged,
        final(context).sources() == old(context).sources(),
        final(context).options() == old(context).options(),
        final(context).trace() == old(context).trace() + (if old(context).options().debug_trace {
            run(rules@, old(context).sources(), old(ast)@, limit as nat).trace
        } else {
            Seq::empty()
        }),
{
    let ghost sources = context.sources();
    let ghost tracing = context.options().debug_trace;
    let ghost whole = run(rules@, sources, ast@, limit as nat);
    let ghost done: Seq<Seq<char>> = Seq::empty();
    let mut budget = limit;
    proof {
        assert(done + whole.trace =~= whole.trace);
        assert(context.trace() =~= context.trace() + Seq::<Seq<char>>::empty());
    }
    loop
        invariant
            sources == old(context).sources(),
            tracing == old(context).options().debug_trace,
            whole == run(rules@, sources, old(ast)@, limit as nat),
            context.sources() == sources,
            context.options() == old(context).options(),
            whole.out == run(rules@, sources, ast@, budget as nat).out,
            whole.converged == run(rules@, sources, ast@, budget as nat).converged,
            whole.trace == done + run(rules@, sources, ast@, budget as nat).trace,
            context.trace() == old(context).trace() + (if tracing {
                done
            } else {
                Seq::empty()
            }),
        decreases budget,
    {
        if budget == 0 {
            assert(done + Seq::<Seq<char>>::empty() =~= done);
            return false;
        }
        let ghost first = pass(rules@, sources, ast@, budget as nat);
        let modified = full_pass(rules, ast, context, &mut budget);
        proof {
            if tracing {
                assert(context.trace() =~= old(context).trace() + (done + first.trace));
            } else {
                assert(context.trace() =~= old(context).trace() + Seq::<Seq<char>>::empty());
            }
            if modified {
                let rest = run(rules@, sources, ast@, budget as nat);
                assert(whole.trace =~= (done + first.trace) + rest.trace);
            }
            done = done + first.trace;
        }
        if !modified {
            return true;
        }
    }
}

} // verus!
