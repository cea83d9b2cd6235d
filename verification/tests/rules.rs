use pphp::ast::{Literal, ZendAst, ZendAstPtr};
use pphp::context::{parse, parse_pattern, set_debug_trace, Options, PhpContext};
use pphp::kind::Kind;
use pphp::rules::branch_elim::BranchElimination;
use pphp::rules::cond_elim::ConditionalElimination;
use pphp::rules::custom::CustomSubstitution;
use pphp::rules::driver::{apply_all, full_pass, node_walk};
use pphp::rules::incr_decr::IncrDecr;
use pphp::rules::instanceof::InstanceOf;
use pphp::rules::loop_unroll::LoopUnroll;
use pphp::rules::registry::{add_rule, builtin_rules, register_rule, Rule, RulesVec};
use pphp::rules::{apply_templates, map_sub, optimize_with, pair, AstOptimizationRule};

fn node(kind: Kind, attr: u16, children: Vec<ZendAst>) -> ZendAst {
    ZendAst::new(kind, attr, children.into_iter().map(Some).collect())
}

fn long(n: i64) -> ZendAst {
    ZendAst::zval(0, Literal::Long(n), format!("{}", n))
}

fn string(s: &str) -> ZendAst {
    ZendAst::zval(0, Literal::Str(s.to_string()), format!("'{}'", s))
}

fn capture(name: &str) -> ZendAst {
    node(Kind::StaticProp, 0, vec![string("PPHP"), string(name)])
}

fn var(name: &str) -> ZendAst {
    node(Kind::Var, 0, vec![string(name)])
}

fn constant(name: &str) -> ZendAst {
    node(Kind::Const, 0, vec![string(name)])
}

fn stmts(children: Vec<ZendAst>) -> ZendAst {
    node(Kind::StmtList, 0, children)
}

fn call(name: &str, args: Vec<ZendAst>) -> ZendAst {
    node(Kind::Call, 0, vec![string(name), node(Kind::ArgList, 0, args)])
}

fn echo(what: ZendAst) -> ZendAst {
    node(Kind::Echo, 0, vec![what])
}

fn if_then(cond: ZendAst, body: Vec<ZendAst>) -> ZendAst {
    node(Kind::If, 0, vec![node(Kind::IfElem, 0, vec![cond, stmts(body)])])
}

fn and(a: ZendAst, b: ZendAst) -> ZendAst {
    node(Kind::And, 0, vec![a, b])
}

fn or(a: ZendAst, b: ZendAst) -> ZendAst {
    node(Kind::Or, 0, vec![a, b])
}

fn for_loop(init: ZendAst, cond: ZendAst, step: ZendAst, body: ZendAst) -> ZendAst {
    node(
        Kind::For,
        0,
        vec![
            node(Kind::ExprList, 0, vec![init]),
            node(Kind::ExprList, 0, vec![cond]),
            node(Kind::ExprList, 0, vec![step]),
            body,
        ],
    )
}

/// The attributes of a binary operation and of its assignment form.
fn operator(op: &str) -> (u16, u16) {
    match op {
        "+" => (1, 23),
        "-" => (2, 24),
        "*" => (3, 25),
        "/" => (4, 26),
        "%" => (5, 27),
        "<<" => (6, 28),
        ">>" => (7, 29),
        "." => (8, 30),
        "|" => (9, 31),
        "&" => (10, 32),
        "**" => (166, 167),
        _ => panic!("no such operator: {}", op),
    }
}

fn binary(op: &str, a: ZendAst, b: ZendAst) -> ZendAst {
    node(Kind::BinaryOp, operator(op).0, vec![a, b])
}

fn assign(target: ZendAst, value: ZendAst) -> ZendAst {
    node(Kind::Assign, 0, vec![target, value])
}

fn assign_op(op: &str, target: ZendAst, value: ZendAst) -> ZendAst {
    node(Kind::AssignOp, operator(op).1, vec![target, value])
}

/// What the host's parser makes of the template texts of the built-in rules.
fn host_parse(text: &str) -> Option<ZendAst> {
    let c = capture;
    let t = || constant("true");
    let f = || constant("false");
    let statement = match text {
        "PPHP::$_1;" => c("_1"),
        "true;" => t(),
        "false;" => f(),
        "{}" => stmts(vec![]),
        "true && PPHP::$_1;" => and(t(), c("_1")),
        "PPHP::$_1 && true;" => and(c("_1"), t()),
        "true || PPHP::$_1;" => or(t(), c("_1")),
        "PPHP::$_1 || true;" => or(c("_1"), t()),
        "false && PPHP::$_1;" => and(f(), c("_1")),
        "PPHP::$_1 && false;" => and(c("_1"), f()),
        "false || PPHP::$_1;" => or(f(), c("_1")),
        "PPHP::$_1 || false;" => or(c("_1"), f()),
        "if (true) { PPHP::$_1; }" => if_then(t(), vec![c("_1")]),
        "if (false) { PPHP::$_1; }" => if_then(f(), vec![c("_1")]),
        "for (PPHP::$_1; PPHP::$_2; PPHP::$iter++) PPHP::$_3;" => {
            for_loop(c("_1"), c("_2"), node(Kind::PostInc, 0, vec![c("iter")]), c("_3"))
        }
        "for (PPHP::$_1; PPHP::$_2; ++PPHP::$iter) PPHP::$_3;" => {
            for_loop(c("_1"), c("_2"), node(Kind::PreInc, 0, vec![c("iter")]), c("_3"))
        }
        "for (PPHP::$_1; PPHP::$_2; PPHP::$iter--) PPHP::$_3;" => {
            for_loop(c("_1"), c("_2"), node(Kind::PostDec, 0, vec![c("iter")]), c("_3"))
        }
        "for (PPHP::$_1; PPHP::$_2; --PPHP::$iter) PPHP::$_3;" => {
            for_loop(c("_1"), c("_2"), node(Kind::PreDec, 0, vec![c("iter")]), c("_3"))
        }
        "PPHP::$_1 += 1;" => assign_op("+", c("_1"), long(1)),
        "PPHP::$_1 -= 1;" => assign_op("-", c("_1"), long(1)),
        "++PPHP::$_1;" => node(Kind::PreInc, 0, vec![c("_1")]),
        "--PPHP::$_1;" => node(Kind::PreDec, 0, vec![c("_1")]),
        "is_a(PPHP::$_1, PPHP::$_2);" => call("is_a", vec![c("_1"), c("_2")]),
        "PPHP::$_1 instanceof PPHP::$_2;" => node(Kind::Instanceof, 0, vec![c("_1"), c("_2")]),
        "foo();" => call("foo", vec![]),
        "echo foo();" => echo(call("foo", vec![])),
        "echo bar();" => echo(call("bar", vec![])),
        "bar();" => call("bar", vec![]),
        "baz();" => call("baz", vec![]),
        "wrap(PPHP::$x);" => call("wrap", vec![c("x")]),
        "PPHP::$x;" => c("x"),
        "inner(PPHP::$x);" => call("inner", vec![c("x")]),
        "outer(PPHP::$x);" => call("outer", vec![c("x")]),
        "pair(PPHP::$x, PPHP::$y);" => call("pair", vec![c("x"), c("y")]),
        "twice(PPHP::$x);" => call("twice", vec![c("x")]),
        "pair(PPHP::$x, PPHP::$x);" => call("pair", vec![c("x"), c("x")]),
        _ => {
            let words: Vec<&str> = text.split(' ').collect();
            if words.len() == 5
                && words[0] == "PPHP::$_1"
                && words[1] == "="
                && words[2] == "PPHP::$_1"
                && words[4] == "PPHP::$_2;"
            {
                assign(c("_1"), binary(words[3], c("_1"), c("_2")))
            } else if words.len() == 3
                && words[0] == "PPHP::$_1"
                && words[1].ends_with('=')
                && words[2] == "PPHP::$_2;"
            {
                assign_op(&words[1][..words[1].len() - 1], c("_1"), c("_2"))
            } else {
                return None;
            }
        }
    };
    Some(stmts(vec![statement]))
}

fn record(context: &mut PhpContext, text: &str) -> bool {
    match host_parse(text) {
        Some(tree) => {
            context.record_parse(format!("<?php {}", text), tree);
            true
        }
        None => false,
    }
}

fn record_pairs(context: &mut PhpContext, pairs: &Vec<(String, String)>) {
    for (search, replace) in pairs.iter() {
        assert!(record(context, search), "no tree for {}", search);
        assert!(record(context, replace), "no tree for {}", replace);
    }
}

/// A context that holds a tree for every template of the built-in rules.
fn host_context() -> PhpContext {
    let mut context = PhpContext::new();
    record_pairs(&mut context, &ConditionalElimination::templates());
    record_pairs(&mut context, &BranchElimination::templates());
    record_pairs(&mut context, &IncrDecr::templates());
    record_pairs(&mut context, &InstanceOf::templates());
    context
}

fn optimize(tree: ZendAst) -> ZendAst {
    let mut tree = tree;
    let mut context = host_context();
    let rules = builtin_rules();
    assert!(apply_all(&mut tree, &rules, &mut context, 1000));
    tree
}

fn custom(context: &mut PhpContext, search: &str, replace: &str) -> Rule {
    record(context, search);
    record(context, replace);
    Rule::Custom(CustomSubstitution::try_create(search.to_string(), replace.to_string(), context).unwrap())
}

fn program(statement: ZendAst) -> ZendAst {
    stmts(vec![statement, node(Kind::Return, 0, vec![long(0)])])
}

#[test]
fn branch_on_true_becomes_its_body() {
    let tree = stmts(vec![if_then(constant("true"), vec![echo(long(1))])]);
    assert_eq!(optimize(tree), echo(long(1)));
    let tree = program(if_then(constant("true"), vec![echo(long(1))]));
    assert_eq!(optimize(tree), program(echo(long(1))));
}

#[test]
fn branch_on_false_becomes_an_empty_block() {
    let tree = stmts(vec![if_then(constant("false"), vec![echo(long(1))])]);
    assert_eq!(optimize(tree), stmts(vec![]));
    let tree = program(if_then(constant("false"), vec![echo(long(1))]));
    assert_eq!(optimize(tree), program(stmts(vec![])));
}

#[test]
fn branch_on_true_with_two_statements_becomes_the_block() {
    let tree = program(if_then(constant("true"), vec![echo(long(1)), echo(long(2))]));
    assert_eq!(optimize(tree), program(stmts(vec![echo(long(1)), echo(long(2))])));
}

#[test]
fn branch_on_a_variable_stays() {
    let tree = program(if_then(var("c"), vec![echo(long(1))]));
    assert_eq!(optimize(tree.duplicate()), tree);
}

#[test]
fn true_and_call_becomes_the_call() {
    let tree = program(and(constant("true"), call("foo", vec![])));
    assert_eq!(optimize(tree), program(call("foo", vec![])));
}

#[test]
fn false_or_call_becomes_the_call() {
    let tree = program(or(constant("false"), call("bar", vec![])));
    assert_eq!(optimize(tree), program(call("bar", vec![])));
}

#[test]
fn constant_operands_are_eliminated() {
    let x = || call("foo", vec![var("a")]);
    let t = || constant("true");
    let f = || constant("false");
    assert_eq!(optimize(program(and(x(), t()))), program(x()));
    assert_eq!(optimize(program(or(t(), x()))), program(t()));
    assert_eq!(optimize(program(or(x(), t()))), program(t()));
    assert_eq!(optimize(program(and(f(), x()))), program(f()));
    assert_eq!(optimize(program(and(x(), f()))), program(f()));
    assert_eq!(optimize(program(or(x(), f()))), program(x()));
    assert_eq!(optimize(program(and(x(), x()))), program(and(x(), x())));
}

#[test]
fn nested_conditions_are_eliminated_to_a_fixpoint() {
    let x = || var("x");
    let tree = program(and(constant("true"), or(constant("false"), and(x(), constant("true")))));
    assert_eq!(optimize(tree), program(x()));
    let tree = program(if_then(
        constant("true"),
        vec![if_then(constant("true"), vec![echo(and(constant("true"), x()))])],
    ));
    assert_eq!(optimize(tree), program(echo(x())));
}

#[test]
fn adding_one_to_a_variable_becomes_an_increment() {
    let tree = program(assign(var("i"), binary("+", var("i"), long(1))));
    assert_eq!(optimize(tree), program(node(Kind::PreInc, 0, vec![var("i")])));
    let tree = program(assign_op("+", var("i"), long(1)));
    assert_eq!(optimize(tree), program(node(Kind::PreInc, 0, vec![var("i")])));
}

#[test]
fn subtracting_one_from_a_variable_becomes_a_decrement() {
    let tree = program(assign(var("i"), binary("-", var("i"), long(1))));
    assert_eq!(optimize(tree), program(node(Kind::PreDec, 0, vec![var("i")])));
    let tree = program(assign_op("-", var("i"), long(2)));
    assert_eq!(optimize(tree.duplicate()), tree);
}

#[test]
fn multiplying_a_variable_becomes_a_compound_assignment() {
    let tree = program(assign(var("x"), binary("*", var("x"), var("y"))));
    assert_eq!(optimize(tree), program(assign_op("*", var("x"), var("y"))));
}

#[test]
fn every_operator_has_its_compound_assignment() {
    let ops = IncrDecr::operators();
    assert_eq!(ops, vec!["*", "/", "+", "-", "**", "%", "<<", ">>", ".", "|", "&"]);
    for op in ops {
        let tree = program(assign(var("x"), binary(op, var("x"), var("y"))));
        assert_eq!(optimize(tree), program(assign_op(op, var("x"), var("y"))), "operator {}", op);
        let other = program(assign(var("x"), binary(op, var("z"), var("y"))));
        assert_eq!(optimize(other.duplicate()), other, "operator {}", op);
    }
}

#[test]
fn compound_templates_are_built_from_the_operator() {
    let (search, replace) = IncrDecr::compound("**");
    assert_eq!(search, "PPHP::$_1 = PPHP::$_1 ** PPHP::$_2;");
    assert_eq!(replace, "PPHP::$_1 **= PPHP::$_2;");
    let (search, replace) = IncrDecr::compound(".");
    assert_eq!(search, "PPHP::$_1 = PPHP::$_1 . PPHP::$_2;");
    assert_eq!(replace, "PPHP::$_1 .= PPHP::$_2;");
}

#[test]
fn incr_decr_templates_come_in_order() {
    let pairs = IncrDecr::templates();
    assert_eq!(pairs.len(), 15);
    assert_eq!(pairs[0].0, "for (PPHP::$_1; PPHP::$_2; PPHP::$iter++) PPHP::$_3;");
    assert_eq!(pairs[0].1, "for (PPHP::$_1; PPHP::$_2; ++PPHP::$iter) PPHP::$_3;");
    assert_eq!(pairs[1].0, "for (PPHP::$_1; PPHP::$_2; PPHP::$iter--) PPHP::$_3;");
    assert_eq!(pairs[1].1, "for (PPHP::$_1; PPHP::$_2; --PPHP::$iter) PPHP::$_3;");
    assert_eq!(pairs[2], pair("PPHP::$_1 += 1;", "++PPHP::$_1;"));
    assert_eq!(pairs[3], pair("PPHP::$_1 -= 1;", "--PPHP::$_1;"));
    assert_eq!(pairs[4], pair("PPHP::$_1 = PPHP::$_1 * PPHP::$_2;", "PPHP::$_1 *= PPHP::$_2;"));
    assert_eq!(pairs[14], pair("PPHP::$_1 = PPHP::$_1 & PPHP::$_2;", "PPHP::$_1 &= PPHP::$_2;"));
}

#[test]
fn other_templates_come_in_order() {
    let pairs = ConditionalElimination::templates();
    assert_eq!(pairs.len(), 8);
    assert_eq!(pairs[0], pair("true && PPHP::$_1;", "PPHP::$_1;"));
    assert_eq!(pairs[1], pair("PPHP::$_1 && true;", "PPHP::$_1;"));
    assert_eq!(pairs[2], pair("true || PPHP::$_1;", "true;"));
    assert_eq!(pairs[3], pair("PPHP::$_1 || true;", "true;"));
    assert_eq!(pairs[4], pair("false && PPHP::$_1;", "false;"));
    assert_eq!(pairs[5], pair("PPHP::$_1 && false;", "false;"));
    assert_eq!(pairs[6], pair("false || PPHP::$_1;", "PPHP::$_1;"));
    assert_eq!(pairs[7], pair("PPHP::$_1 || false;", "PPHP::$_1;"));
    let pairs = BranchElimination::templates();
    assert_eq!(pairs.len(), 2);
    assert_eq!(pairs[0], pair("if (true) { PPHP::$_1; }", "PPHP::$_1;"));
    assert_eq!(pairs[1], pair("if (false) { PPHP::$_1; }", "{}"));
    let pairs = InstanceOf::templates();
    assert_eq!(pairs, vec![pair("is_a(PPHP::$_1, PPHP::$_2);", "PPHP::$_1 instanceof PPHP::$_2;")]);
}

#[test]
fn postfix_in_a_for_loop_becomes_prefix() {
    let body = || echo(var("i"));
    let tree = program(for_loop(
        assign(var("i"), long(0)),
        node(Kind::Greater, 0, vec![long(10), var("i")]),
        node(Kind::PostInc, 0, vec![var("i")]),
        body(),
    ));
    let expected = program(for_loop(
        assign(var("i"), long(0)),
        node(Kind::Greater, 0, vec![long(10), var("i")]),
        node(Kind::PreInc, 0, vec![var("i")]),
        body(),
    ));
    assert_eq!(optimize(tree), expected);
    let tree = program(for_loop(var("a"), var("b"), node(Kind::PostDec, 0, vec![var("i")]), body()));
    let expected = program(for_loop(var("a"), var("b"), node(Kind::PreDec, 0, vec![var("i")]), body()));
    assert_eq!(optimize(tree), expected);
    let alone = program(node(Kind::PostInc, 0, vec![var("i")]));
    assert_eq!(optimize(alone.duplicate()), alone);
}

#[test]
fn is_a_becomes_instanceof() {
    let tree = program(call("is_a", vec![var("x"), string("Foo")]));
    assert_eq!(optimize(tree), program(node(Kind::Instanceof, 0, vec![var("x"), string("Foo")])));
    let tree = program(call("is_b", vec![var("x"), string("Foo")]));
    assert_eq!(optimize(tree.duplicate()), tree);
    let tree = program(call("is_a", vec![var("x")]));
    assert_eq!(optimize(tree.duplicate()), tree);
}

#[test]
fn loop_unroll_replaces_nothing() {
    let mut context = host_context();
    set_debug_trace(&mut context, true);
    let tree = for_loop(var("a"), var("b"), var("c"), echo(long(1)));
    let mut slot = ZendAstPtr::new(tree.duplicate());
    LoopUnroll::new().optimize(&mut slot, &mut context);
    assert!(!slot.is_dirty());
    assert_eq!(slot.deref(), &tree);
    assert_eq!(context.take_trace().len(), 0);
}

#[test]
fn rule_marks_the_slot_dirty_only_where_it_replaces() {
    let mut context = host_context();
    let mut slot = ZendAstPtr::new(and(constant("true"), var("x")));
    ConditionalElimination::new().optimize(&mut slot, &mut context);
    assert!(slot.is_dirty());
    assert_eq!(slot.deref(), &var("x"));
    let mut slot = ZendAstPtr::new(and(var("y"), var("x")));
    ConditionalElimination::new().optimize(&mut slot, &mut context);
    assert!(!slot.is_dirty());
    assert_eq!(slot.deref(), &and(var("y"), var("x")));
    let mut slot = ZendAstPtr::new(and(var("y"), var("x")));
    slot.set_dirty(true);
    BranchElimination::new().optimize(&mut slot, &mut context);
    assert!(slot.is_dirty());
}

#[test]
fn pairs_of_one_rule_are_applied_in_sequence() {
    let mut context = host_context();
    let mut slot = ZendAstPtr::new(and(constant("true"), or(constant("false"), var("x"))));
    ConditionalElimination::new().optimize(&mut slot, &mut context);
    assert_eq!(slot.deref(), &var("x"));
    let mut slot = ZendAstPtr::new(or(constant("false"), and(constant("true"), var("x"))));
    ConditionalElimination::new().optimize(&mut slot, &mut context);
    assert_eq!(slot.deref(), &and(constant("true"), var("x")));
}

#[test]
fn map_sub_replaces_what_the_pattern_matches() {
    let mut context = host_context();
    let mut slot = ZendAstPtr::new(stmts(vec![call("is_a", vec![var("x"), var("y")])]));
    map_sub("is_a(PPHP::$_1, PPHP::$_2);", "PPHP::$_1 instanceof PPHP::$_2;", &mut slot, &mut context);
    assert!(slot.is_dirty());
    assert_eq!(slot.deref(), &node(Kind::Instanceof, 0, vec![var("x"), var("y")]));
}

#[test]
fn map_sub_without_a_tree_for_a_text_does_nothing() {
    let mut context = PhpContext::new();
    record(&mut context, "foo();");
    let mut slot = ZendAstPtr::new(call("foo", vec![]));
    map_sub("foo();", "bar();", &mut slot, &mut context);
    assert!(!slot.is_dirty());
    map_sub("bar();", "foo();", &mut slot, &mut context);
    assert!(!slot.is_dirty());
    assert_eq!(slot.deref(), &call("foo", vec![]));
    record(&mut context, "bar();");
    map_sub("foo();", "bar();", &mut slot, &mut context);
    assert!(slot.is_dirty());
    assert_eq!(slot.deref(), &call("bar", vec![]));
}

#[test]
fn map_sub_with_a_capture_that_the_search_lacks_does_nothing() {
    let mut context = PhpContext::new();
    record(&mut context, "wrap(PPHP::$x);");
    record(&mut context, "pair(PPHP::$x, PPHP::$y);");
    let mut slot = ZendAstPtr::new(call("wrap", vec![var("a")]));
    map_sub("wrap(PPHP::$x);", "pair(PPHP::$x, PPHP::$y);", &mut slot, &mut context);
    assert!(!slot.is_dirty());
    assert_eq!(slot.deref(), &call("wrap", vec![var("a")]));
}

#[test]
fn replacement_may_use_a_capture_twice() {
    let mut context = PhpContext::new();
    record(&mut context, "twice(PPHP::$x);");
    record(&mut context, "pair(PPHP::$x, PPHP::$x);");
    let mut slot = ZendAstPtr::new(call("twice", vec![call("f", vec![long(1)])]));
    map_sub("twice(PPHP::$x);", "pair(PPHP::$x, PPHP::$x);", &mut slot, &mut context);
    assert_eq!(
        slot.deref(),
        &call("pair", vec![call("f", vec![long(1)]), call("f", vec![long(1)])])
    );
}

#[test]
fn apply_templates_and_optimize_with_apply_each_pair() {
    let mut context = host_context();
    let pairs = vec![pair("foo();", "bar();"), pair("bar();", "baz();")];
    record_pairs(&mut context, &pairs);
    let mut slot = ZendAstPtr::new(call("foo", vec![]));
    apply_templates(&pairs, &mut slot, &mut context);
    assert!(slot.is_dirty());
    assert_eq!(slot.deref(), &call("baz", vec![]));
    let mut slot = ZendAstPtr::new(call("bar", vec![]));
    optimize_with(&pairs, &mut slot, &mut context);
    assert_eq!(slot.deref(), &call("baz", vec![]));
    let mut slot = ZendAstPtr::new(call("baz", vec![]));
    optimize_with(&pairs, &mut slot, &mut context);
    assert!(!slot.is_dirty());
}

#[test]
fn parse_gives_what_is_on_record() {
    let mut context = PhpContext::new();
    assert_eq!(parse("<?php foo();", &context), None);
    assert_eq!(parse_pattern("foo();", &context), None);
    context.record_parse("<?php foo();".to_string(), stmts(vec![call("foo", vec![])]));
    assert_eq!(parse("<?php foo();", &context), Some(&stmts(vec![call("foo", vec![])])));
    assert_eq!(parse_pattern("foo();", &context), Some(&stmts(vec![call("foo", vec![])])));
    assert_eq!(parse("foo();", &context), None);
    assert_eq!(parse_pattern("<?php foo();", &context), None);
    assert_eq!(context.lookup(&"<?php foo();".to_string()), Some(&stmts(vec![call("foo", vec![])])));
    context.record_parse("<?php foo();".to_string(), stmts(vec![call("other", vec![])]));
    assert_eq!(parse_pattern("foo();", &context), Some(&stmts(vec![call("other", vec![])])));
}

#[test]
fn registry_starts_with_the_built_in_rules_in_order() {
    let rules = builtin_rules();
    assert_eq!(rules.len(), 5);
    assert!(matches!(rules[0], Rule::ConditionalElimination(_)));
    assert!(matches!(rules[1], Rule::BranchElimination(_)));
    assert!(matches!(rules[2], Rule::IncrDecr(_)));
    assert!(matches!(rules[3], Rule::InstanceOf(_)));
    assert!(matches!(rules[4], Rule::LoopUnroll(_)));
}

#[test]
fn unparsable_template_is_not_registered() {
    let mut context = host_context();
    let mut rules = builtin_rules();
    assert!(!record(&mut context, "if ("));
    assert!(!record(&mut context, "..."));
    assert!(record(&mut context, "foo();"));
    assert!(!register_rule(&mut rules, &context, "if (".to_string(), "...".to_string()));
    assert_eq!(rules.len(), 5);
    assert!(!register_rule(&mut rules, &context, "foo();".to_string(), "if (".to_string()));
    assert_eq!(rules.len(), 5);
    assert!(!register_rule(&mut rules, &context, "if (".to_string(), "foo();".to_string()));
    assert_eq!(rules.len(), 5);
    assert!(CustomSubstitution::try_create("if (".to_string(), "foo();".to_string(), &context).is_none());
}

#[test]
fn registered_rule_is_appended_behind_the_built_in_rules() {
    let mut context = host_context();
    let mut rules = builtin_rules();
    assert!(record(&mut context, "foo();"));
    assert!(record(&mut context, "bar();"));
    assert!(record(&mut context, "baz();"));
    assert!(register_rule(&mut rules, &context, "foo();".to_string(), "bar();".to_string()));
    assert_eq!(rules.len(), 6);
    assert!(matches!(rules[4], Rule::LoopUnroll(_)));
    assert!(matches!(rules[5], Rule::Custom(_)));
    assert!(register_rule(&mut rules, &context, "bar();".to_string(), "baz();".to_string()));
    assert_eq!(rules.len(), 7);
    let mut tree = program(call("foo", vec![]));
    assert!(apply_all(&mut tree, &rules, &mut context, 100));
    assert_eq!(tree, program(call("baz", vec![])));
}

#[test]
fn add_rule_appends() {
    let mut context = PhpContext::new();
    let mut rules: RulesVec = Vec::new();
    add_rule(&mut rules, Rule::LoopUnroll(LoopUnroll::new()));
    let rule = custom(&mut context, "foo();", "bar();");
    add_rule(&mut rules, rule);
    add_rule(&mut rules, Rule::BranchElimination(BranchElimination::new()));
    assert_eq!(rules.len(), 3);
    assert!(matches!(rules[0], Rule::LoopUnroll(_)));
    assert!(matches!(rules[1], Rule::Custom(_)));
    assert!(matches!(rules[2], Rule::BranchElimination(_)));
}

#[test]
fn registered_rule_runs_after_the_built_in_rules_of_the_pass() {
    // The registered rule turns `echo foo();` into `echo bar();`. It sees
    // `echo foo();` only once the built-in rules have removed `true &&`, in
    // the same pass.
    let mut context = host_context();
    let mut rules = builtin_rules();
    assert!(record(&mut context, "echo foo();"));
    assert!(record(&mut context, "echo bar();"));
    assert!(register_rule(&mut rules, &context, "echo foo();".to_string(), "echo bar();".to_string()));
    let mut tree = program(echo(and(constant("true"), call("foo", vec![]))));
    let mut budget: usize = 10;
    assert!(full_pass(&rules, &mut tree, &mut context, &mut budget));
    assert_eq!(tree, program(echo(call("bar", vec![]))));
    assert_eq!(budget, 8);

    // Registered in front of them, it sees `echo true && foo();`, which it
    // does not match, and a second pass is needed.
    let mut context = host_context();
    let mut rules: RulesVec = Vec::new();
    let rule = custom(&mut context, "echo foo();", "echo bar();");
    add_rule(&mut rules, rule);
    add_rule(&mut rules, Rule::ConditionalElimination(ConditionalElimination::new()));
    let mut tree = program(echo(and(constant("true"), call("foo", vec![]))));
    let mut budget: usize = 10;
    assert!(full_pass(&rules, &mut tree, &mut context, &mut budget));
    assert_eq!(tree, program(echo(call("foo", vec![]))));
    assert_eq!(budget, 9);
    assert!(full_pass(&rules, &mut tree, &mut context, &mut budget));
    assert_eq!(tree, program(echo(call("bar", vec![]))));
    assert!(!full_pass(&rules, &mut tree, &mut context, &mut budget));
    assert_eq!(budget, 8);
}

#[test]
fn second_run_changes_nothing() {
    let mut context = host_context();
    let rules = builtin_rules();
    let mut tree = stmts(vec![
        if_then(constant("true"), vec![assign(var("i"), binary("+", var("i"), long(1)))]),
        and(constant("true"), or(call("is_a", vec![var("x"), var("y")]), constant("false"))),
        if_then(constant("false"), vec![echo(long(1))]),
    ]);
    assert!(apply_all(&mut tree, &rules, &mut context, 100));
    let expected = stmts(vec![
        node(Kind::PreInc, 0, vec![var("i")]),
        node(Kind::Instanceof, 0, vec![var("x"), var("y")]),
        stmts(vec![]),
    ]);
    assert_eq!(tree, expected);
    assert!(apply_all(&mut tree, &rules, &mut context, 1));
    assert_eq!(tree, expected);
    let mut budget: usize = 5;
    assert!(!full_pass(&rules, &mut tree, &mut context, &mut budget));
    assert_eq!(budget, 5);
    assert_eq!(tree, expected);
}

#[test]
fn run_without_a_budget_does_nothing() {
    let mut context = host_context();
    let rules = builtin_rules();
    let mut tree = program(and(constant("true"), var("x")));
    assert!(!apply_all(&mut tree, &rules, &mut context, 0));
    assert_eq!(tree, program(and(constant("true"), var("x"))));
    let mut settled = program(var("x"));
    assert!(!apply_all(&mut settled, &rules, &mut context, 0));
    assert!(apply_all(&mut settled, &rules, &mut context, 1));
}

#[test]
fn run_stops_when_the_budget_is_used_up() {
    let mut context = host_context();
    let rules = builtin_rules();
    let three = || {
        stmts(vec![
            and(constant("true"), var("a")),
            and(constant("true"), var("b")),
            and(constant("true"), var("c")),
        ])
    };
    let mut tree = three();
    assert!(!apply_all(&mut tree, &rules, &mut context, 2));
    assert_eq!(tree, stmts(vec![var("a"), var("b"), and(constant("true"), var("c"))]));
    let mut tree = three();
    assert!(!apply_all(&mut tree, &rules, &mut context, 3));
    assert_eq!(tree, stmts(vec![var("a"), var("b"), var("c")]));
    let mut tree = three();
    assert!(apply_all(&mut tree, &rules, &mut context, 4));
    assert_eq!(tree, stmts(vec![var("a"), var("b"), var("c")]));
}

#[test]
fn rule_that_matches_its_own_replacement_uses_up_any_budget() {
    let mut context = PhpContext::new();
    let mut rules: RulesVec = Vec::new();
    let rule = custom(&mut context, "foo();", "foo();");
    add_rule(&mut rules, rule);
    let mut tree = program(call("foo", vec![]));
    assert!(!apply_all(&mut tree, &rules, &mut context, 50));
    assert_eq!(tree, program(call("foo", vec![])));
}

#[test]
fn mutually_inverse_rules_use_up_any_budget() {
    let mut context = PhpContext::new();
    let mut rules: RulesVec = Vec::new();
    let there = custom(&mut context, "foo();", "bar();");
    let back = custom(&mut context, "bar();", "foo();");
    add_rule(&mut rules, there);
    add_rule(&mut rules, back);
    let mut tree = program(call("foo", vec![]));
    assert!(!apply_all(&mut tree, &rules, &mut context, 7));
    assert_eq!(tree, program(call("bar", vec![])));
    let mut tree = program(call("foo", vec![]));
    assert!(!apply_all(&mut tree, &rules, &mut context, 8));
    assert_eq!(tree, program(call("foo", vec![])));
}

#[test]
fn walk_goes_on_into_the_replacement() {
    // `inner(X)` becomes `outer(X)`; the walk then visits the children of
    // `outer(X)`, where it finds the next `inner`.
    let mut context = PhpContext::new();
    let rule = custom(&mut context, "inner(PPHP::$x);", "outer(PPHP::$x);");
    let mut tree = call("inner", vec![call("inner", vec![call("inner", vec![long(1)])])]);
    let mut budget: usize = 10;
    node_walk(&rule, &mut tree, &mut context, &mut budget);
    assert_eq!(tree, call("outer", vec![call("outer", vec![call("outer", vec![long(1)])])]));
    assert_eq!(budget, 7);
}

#[test]
fn replacement_that_holds_the_pattern_grows_until_the_budget_ends() {
    let mut context = PhpContext::new();
    assert!(record(&mut context, "inner(PPHP::$x);"));
    context.record_parse(
        "<?php wrap(inner(PPHP::$x));".to_string(),
        stmts(vec![call("wrap", vec![call("inner", vec![capture("x")])])]),
    );
    let rule = CustomSubstitution::try_create(
        "inner(PPHP::$x);".to_string(),
        "wrap(inner(PPHP::$x));".to_string(),
        &context,
    )
    .unwrap();
    let mut tree = call("inner", vec![long(1)]);
    let mut budget: usize = 3;
    node_walk(&rule, &mut tree, &mut context, &mut budget);
    assert_eq!(budget, 0);
    assert_eq!(
        tree,
        call("wrap", vec![call("wrap", vec![call("wrap", vec![call("inner", vec![long(1)])])])])
    );
}

#[test]
fn walk_visits_the_root_and_every_node_below_it() {
    let mut context = PhpContext::new();
    let rule = custom(&mut context, "foo();", "bar();");
    let mut tree = call("foo", vec![]);
    let mut budget: usize = 5;
    node_walk(&rule, &mut tree, &mut context, &mut budget);
    assert_eq!(tree, call("bar", vec![]));
    assert_eq!(budget, 4);
    let mut tree = stmts(vec![
        call("foo", vec![]),
        echo(call("foo", vec![])),
        ZendAst::new(Kind::For, 0, vec![None, None, Some(call("foo", vec![])), Some(stmts(vec![call("foo", vec![]), long(1)]))]),
    ]);
    node_walk(&rule, &mut tree, &mut context, &mut budget);
    assert_eq!(budget, 0);
    let mut budget: usize = 5;
    node_walk(&rule, &mut tree, &mut context, &mut budget);
    assert_eq!(budget, 5);
    assert_eq!(
        tree,
        stmts(vec![
            call("bar", vec![]),
            echo(call("bar", vec![])),
            ZendAst::new(Kind::For, 0, vec![None, None, Some(call("bar", vec![])), Some(stmts(vec![call("bar", vec![]), long(1)]))]),
        ])
    );
}

#[test]
fn walk_without_a_budget_applies_no_rule() {
    let mut context = PhpContext::new();
    let rule = custom(&mut context, "foo();", "bar();");
    let mut tree = program(call("foo", vec![]));
    let mut budget: usize = 0;
    node_walk(&rule, &mut tree, &mut context, &mut budget);
    assert_eq!(budget, 0);
    assert_eq!(tree, program(call("foo", vec![])));
}

#[test]
fn options_start_without_tracing() {
    assert!(!Options::new().debug_trace);
    let mut context = PhpContext::new();
    assert!(!context.debug_trace());
    set_debug_trace(&mut context, true);
    assert!(context.debug_trace());
    set_debug_trace(&mut context, false);
    assert!(!context.debug_trace());
}
