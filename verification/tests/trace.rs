use pphp::ast::{Literal, ZendAst, ZendAstPtr};
use pphp::context::{set_debug_trace, PhpContext};
use pphp::kind::Kind;
use pphp::rules::driver::apply_all;
use pphp::rules::map_sub;
use pphp::rules::registry::builtin_rules;
use pphp::tracer::{format_number, print_node, trace_report};

fn node(kind: Kind, attr: u16, children: Vec<ZendAst>) -> ZendAst {
    ZendAst::new(kind, attr, children.into_iter().map(Some).collect())
}

fn long(n: i64) -> ZendAst {
    ZendAst::zval(0, Literal::Long(n), format!("{}", n))
}

fn string(s: &str) -> ZendAst {
    ZendAst::zval(0, Literal::Str(s.to_string()), format!("'{}'", s))
}

fn capture(name: &str) -> ZendAst {
    node(Kind::StaticProp, 0, vec![string("PPHP"), string(name)])
}

fn var(name: &str) -> ZendAst {
    node(Kind::Var, 0, vec![string(name)])
}

fn constant(name: &str) -> ZendAst {
    node(Kind::Const, 0, vec![string(name)])
}

fn stmts(children: Vec<ZendAst>) -> ZendAst {
    node(Kind::StmtList, 0, children)
}

fn and(a: ZendAst, b: ZendAst) -> ZendAst {
    node(Kind::And, 0, vec![a, b])
}

fn context_with_and_rule() -> PhpContext {
    let mut context = PhpContext::new();
    context.record_parse(
        "<?php true && PPHP::$_1;".to_string(),
        stmts(vec![and(constant("true"), capture("_1"))]),
    );
    context.record_parse("<?php PPHP::$_1;".to_string(), stmts(vec![capture("_1")]));
    context
}

#[test]
fn numbers_are_written_in_their_base() {
    assert_eq!(format_number(0, 10), "0");
    assert_eq!(format_number(7, 10), "7");
    assert_eq!(format_number(10, 10), "10");
    assert_eq!(format_number(1234567890, 10), "1234567890");
    assert_eq!(format_number(0, 16), "0");
    assert_eq!(format_number(10, 16), "a");
    assert_eq!(format_number(255, 16), "ff");
    assert_eq!(format_number(0x1f0c, 16), "1f0c");
    assert_eq!(format_number(65535, 16), "ffff");
    assert_eq!(format_number(5, 2), "101");
    assert_eq!(format_number(usize::MAX, 10), format!("{}", usize::MAX));
    assert_eq!(format_number(usize::MAX, 16), format!("{:x}", usize::MAX));
}

#[test]
fn node_is_shown_with_its_children_below_it() {
    let tree = stmts(vec![
        node(Kind::Assign, 0, vec![var("a"), node(Kind::BinaryOp, 1, vec![capture("x"), long(5)])]),
        node(Kind::Echo, 0, vec![string("hi")]),
    ]);
    let lines = print_node(&tree, 0);
    assert_eq!(
        lines,
        vec![
            " STMT_LIST (2 children)",
            "  ASSIGN (2 children)",
            "    VAR (1 children)",
            "      ZVAL 'a' (0 children)",
            "    BINARY_OP 0x1 (2 children)",
            "      <$x>",
            "      ZVAL 5 (0 children)",
            "  ECHO (1 children)",
            "    ZVAL 'hi' (0 children)",
        ]
    );
}

#[test]
fn margin_is_two_spaces_for_each_level_and_one_at_the_top() {
    assert_eq!(print_node(&long(1), 0), vec![" ZVAL 1 (0 children)"]);
    assert_eq!(print_node(&long(1), 1), vec!["  ZVAL 1 (0 children)"]);
    assert_eq!(print_node(&long(1), 2), vec!["    ZVAL 1 (0 children)"]);
    assert_eq!(print_node(&capture("name"), 0), vec![" <$name>"]);
    assert_eq!(print_node(&capture("name"), 3), vec!["      <$name>"]);
    assert_eq!(
        print_node(&var("a"), 2),
        vec!["    VAR (1 children)", "      ZVAL 'a' (0 children)"]
    );
}

#[test]
fn single_statement_wrapper_is_not_shown() {
    let tree = stmts(vec![stmts(vec![node(Kind::Echo, 0, vec![stmts(vec![long(1)])])])]);
    assert_eq!(print_node(&tree, 1), vec!["  ECHO (1 children)", "    ZVAL 1 (0 children)"]);
    assert_eq!(print_node(&stmts(vec![]), 1), vec!["  STMT_LIST (0 children)"]);
    assert_eq!(print_node(&stmts(vec![capture("x")]), 1), vec!["  <$x>"]);
}

#[test]
fn attributes_are_shown_in_hexadecimal_where_they_are_not_zero() {
    assert_eq!(print_node(&node(Kind::MagicConst, 0, vec![]), 1), vec!["  MAGIC_CONST (0 children)"]);
    assert_eq!(print_node(&node(Kind::MagicConst, 10, vec![]), 1), vec!["  MAGIC_CONST 0xa (0 children)"]);
    assert_eq!(print_node(&node(Kind::Type, 0x1f0, vec![]), 1), vec!["  TYPE 0x1f0 (0 children)"]);
    assert_eq!(print_node(&node(Kind::Type, 65535, vec![]), 1), vec!["  TYPE 0xffff (0 children)"]);
    let value = ZendAst::zval(5, Literal::Null, "NULL".to_string());
    assert_eq!(print_node(&value, 1), vec!["  ZVAL NULL (0 children)"]);
}

#[test]
fn declaration_is_shown_with_its_name() {
    let decl = ZendAst {
        kind: Kind::FuncDecl,
        attr: 0,
        value: None,
        name: Some("main".to_string()),
        child: vec![None, None, Some(stmts(vec![])), None],
    };
    assert_eq!(
        print_node(&decl, 1),
        vec!["  FUNC_DECL main (1 children)", "    STMT_LIST (0 children)"]
    );
    let class = ZendAst {
        kind: Kind::Class,
        attr: 0x20,
        value: None,
        name: Some("Foo".to_string()),
        child: vec![None, None, None],
    };
    assert_eq!(print_node(&class, 0), vec![" CLASS Foo 0x20 (0 children)"]);
    let named_plain = ZendAst {
        kind: Kind::Echo,
        attr: 0,
        value: None,
        name: Some("ignored".to_string()),
        child: vec![Some(long(1))],
    };
    assert_eq!(print_node(&named_plain, 0), vec![" ECHO (1 children)", "  ZVAL 1 (0 children)"]);
}

#[test]
fn kinds_are_shown_by_name() {
    assert_eq!(Kind::StmtList.name(), "STMT_LIST");
    assert_eq!(Kind::Zval.name(), "ZVAL");
    assert_eq!(Kind::StaticProp.name(), "STATIC_PROP");
    assert_eq!(Kind::IncludeOrEval.name(), "INCLUDE_OR_EVAL");
    assert_eq!(Kind::Instanceof.name(), "INSTANCEOF");
    assert_eq!(Kind::ClassConstDecl.name(), "CLASS_CONST_DECL");
    assert_eq!(Kind::For.name(), "FOR");
    assert_eq!(Kind::PreInc.name(), "PRE_INC");
}

#[test]
fn report_shows_pattern_subject_and_result() {
    let pattern = stmts(vec![and(constant("true"), capture("_1"))]);
    let before = and(constant("true"), var("x"));
    let after = var("x");
    assert_eq!(
        trace_report(&pattern, &before, &after),
        vec![
            "** PPHP rule match **",
            "==> matched pattern:",
            "    AND (2 children)",
            "      CONST (1 children)",
            "        ZVAL 'true' (0 children)",
            "      <$_1>",
            "==> original AST:",
            "    AND (2 children)",
            "      CONST (1 children)",
            "        ZVAL 'true' (0 children)",
            "      VAR (1 children)",
            "        ZVAL 'x' (0 children)",
            "==> new AST:",
            "    VAR (1 children)",
            "      ZVAL 'x' (0 children)",
        ]
    );
}

#[test]
fn rewrite_is_traced_while_tracing_is_on() {
    let mut context = context_with_and_rule();
    set_debug_trace(&mut context, true);
    let mut slot = ZendAstPtr::new(and(constant("true"), long(1)));
    map_sub("true && PPHP::$_1;", "PPHP::$_1;", &mut slot, &mut context);
    assert!(slot.is_dirty());
    let lines = context.take_trace();
    assert_eq!(
        lines,
        vec![
            "** PPHP rule match **",
            "==> matched pattern:",
            "    AND (2 children)",
            "      CONST (1 children)",
            "        ZVAL 'true' (0 children)",
            "      <$_1>",
            "==> original AST:",
            "    AND (2 children)",
            "      CONST (1 children)",
            "        ZVAL 'true' (0 children)",
            "      ZVAL 1 (0 children)",
            "==> new AST:",
            "    ZVAL 1 (0 children)",
        ]
    );
    assert_eq!(context.take_trace().len(), 0);
}

#[test]
fn nothing_is_traced_where_nothing_is_replaced() {
    let mut context = context_with_and_rule();
    set_debug_trace(&mut context, true);
    let mut slot = ZendAstPtr::new(and(var("y"), long(1)));
    map_sub("true && PPHP::$_1;", "PPHP::$_1;", &mut slot, &mut context);
    assert!(!slot.is_dirty());
    assert_eq!(context.take_trace().len(), 0);
}

#[test]
fn nothing_is_traced_while_tracing_is_off() {
    let mut context = context_with_and_rule();
    let mut slot = ZendAstPtr::new(and(constant("true"), long(1)));
    map_sub("true && PPHP::$_1;", "PPHP::$_1;", &mut slot, &mut context);
    assert!(slot.is_dirty());
    assert_eq!(slot.deref(), &long(1));
    assert_eq!(context.take_trace().len(), 0);
}

#[test]
fn tracing_does_not_change_the_result() {
    let start = || stmts(vec![and(constant("true"), and(constant("true"), var("x"))), var("y")]);
    let rules = builtin_rules();
    let mut quiet = context_with_and_rule();
    let mut traced = context_with_and_rule();
    set_debug_trace(&mut traced, true);
    let mut first = start();
    let mut second = start();
    assert!(apply_all(&mut first, &rules, &mut quiet, 100));
    assert!(apply_all(&mut second, &rules, &mut traced, 100));
    assert_eq!(first, second);
    assert_eq!(first, stmts(vec![var("x"), var("y")]));
    assert_eq!(quiet.take_trace().len(), 0);
    let lines = traced.take_trace();
    assert_eq!(lines.iter().filter(|line| line.as_str() == "** PPHP rule match **").count(), 2);
    assert_eq!(lines.len(), 2 * 3 + (4 + 8 + 6) + (4 + 6 + 2));
}

#[test]
fn trace_is_appended_to_and_handed_out() {
    let mut context = PhpContext::new();
    context.append_trace(vec!["one".to_string(), "two".to_string()]);
    context.append_trace(vec![]);
    context.append_trace(vec!["three".to_string()]);
    assert_eq!(context.take_trace(), vec!["one", "two", "three"]);
    assert_eq!(context.take_trace().len(), 0);
}
