//! The debug tracer: renders trees as indented text, one node a line.

use vstd::prelude::*;
use vstd::string::StringExecFns;
use crate::ast::{get_children, is_bind_param, unwrap, views, ZendAst};
use crate::context::lines_view;
use crate::kind::Kind;
use crate::tree::{
    forest_height, height, lemma_forest_height, lemma_forest_height_drop_last,
    lemma_present_height, lemma_slot_height, placeholder, present, Tree,
};

verus! {

/// The digit that stands for `d` in a base up to sixteen.
pub open spec fn digit(d: nat) -> char {
    if d == 0 {
        '0'
    } else if d == 1 {
        '1'
    } else if d == 2 {
        '2'
    } else if d == 3 {
        '3'
    } else if d == 4 {
        '4'
    } else if d == 5 {
        '5'
    } else if d == 6 {
        '6'
    } else if d == 7 {
        '7'
    } else if d == 8 {
        '8'
    } else if d == 9 {
        '9'
    } else if d == 10 {
        'a'
    } else if d == 11 {
        'b'
    } else if d == 12 {
        'c'
    } else if d == 13 {
        'd'
    } else if d == 14 {
        'e'
    } else {
        'f'
    }
}

/// The digits of `n` in the given base, the most significant first.
pub open spec fn numeral(n: nat, base: nat) -> Seq<char>
    decreases n,
{
    if base < 2 || n < base {
        seq![digit(n)]
    } else {
        proof {
            assert(n / base < n) by (nonlinear_arith)
                requires
                    n >= base,
                    base >= 2,
            ;
        }
        numeral(n / base, base).push(digit(n % base))
    }
}

/// `n` spaces.
pub open spec fn spaces(n: nat) -> Seq<char> {
    Seq::new(n, |i: int| ' ')
}

/// What stands in front of a line at the given depth: two spaces for each
/// level, and one space at depth 0.
pub open spec fn margin(depth: nat) -> Seq<char> {
    if depth == 0 {
        spaces(1)
    } else {
        spaces(2 * depth)
    }
}

/// The text that shows a capture.
pub open spec fn capture_text(name: Seq<char>) -> Seq<char> {
    seq!['<', '$'] + name + seq!['>']
}

/// The text `" children)"`.
pub open spec fn children_suffix() -> Seq<char> {
    seq![' ', 'c', 'h', 'i', 'l', 'd', 'r', 'e', 'n', ')']
}

/// The text that shows a node that is no capture: for a value node the word
/// `ZVAL` and the text of its literal; for any other node the name of its
/// kind, the name of a declaration, and the attributes in hexadecimal where
/// they are not 0; then the number of children in brackets.
pub open spec fn node_text(t: Tree) -> Seq<char> {
    let count = numeral(present(t.slots).len(), 10);
    if t.kind == Kind::Zval {
        let dump = match t.value {
            Some(c) => c.export,
            None => Seq::empty(),
        };
        seq!['Z', 'V', 'A', 'L', ' '] + dump + seq![' ', '('] + count + children_suffix()
    } else {
        let name = if t.kind.spec_is_decl() {
            match t.name {
                Some(s) => s + seq![' '],
                None => seq![' '],
            }
        } else {
            Seq::empty()
        };
        let attr = if t.attr == 0 {
            Seq::empty()
        } else {
            seq!['0', 'x'] + numeral(t.attr as nat, 16) + seq![' ']
        };
        t.kind.spec_name() + seq![' '] + name + attr + seq!['('] + count + children_suffix()
    }
}

/// The lines that show `t` at the given depth: `t` without its wrapper where
/// it is one; a capture as one line; any other node as its line and then its
/// children, one level deeper. Each line starts with the margin of its depth.
pub open spec fn render(t: Tree, depth: nat) -> Seq<Seq<char>>
    decreases height(t), 0nat,
{
    match crate::tree::unwrap(t) {
        Some(inner) => {
            proof {
                lemma_slot_height(t.slots, 0);
            }
            render(inner, depth)
        },
        None => match placeholder(t) {
            Some(name) => seq![margin(depth) + capture_text(name)],
            None => {
                proof {
                    lemma_present_height(t.slots);
                }
                seq![margin(depth) + node_text(t)] + render_all(present(t.slots), depth + 1)
            },
        },
    }
}

/// The lines that show each of `trees` in turn.
pub open spec fn render_all(trees: Seq<Tree>, depth: nat) -> Seq<Seq<char>>
    decreases forest_height(trees), 1 + trees.len(),
{
    if trees.len() == 0 {
        Seq::empty()
    } else {
        proof {
            lemma_forest_height(trees, trees.len() - 1);
            lemma_forest_height_drop_last(trees);
        }
        render_all(trees.drop_last(), depth) + render(trees.last(), depth)
    }
}

/// What a rule traces of one rewrite: the pattern that matched, the node
/// before and the node after.
pub open spec fn report(pattern: Tree, before: Tree, after: Tree) -> Seq<Seq<char>> {
    seq!["** PPHP rule match **"@, "==> matched pattern:"@] + render(pattern, 2) + seq![
        "==> original AST:"@,
    ] + render(before, 2) + seq!["==> new AST:"@] + render(after, 2)
}

/// The digit that stands for `d`, as text.
fn digit_text(d: usize) -> (text: &'static str)
    requires
        d < 16,
    ensures
        text@ == seq![digit(d as nat)],
{
    proof {
        reveal_strlit("0");
        reveal_strlit("1");
        reveal_strlit("2");
        reveal_strlit("3");
        reveal_strlit("4");
        reveal_strlit("5");
        reveal_strlit("6");
        reveal_strlit("7");
        reveal_strlit("8");
        reveal_strlit("9");
        reveal_strlit("a");
        reveal_strlit("b");
        reveal_strlit("c");
        reveal_strlit("d");
        reveal_strlit("e");
        reveal_strlit("f");
    }
    let text = match d {
        0 => "0",
        1 => "1",
        2 => "2",
        3 => "3",
        4 => "4",
        5 => "5",
        6 => "6",
        7 => "7",
        8 => "8",
        9 => "9",
        10 => "a",
        11 => "b",
        12 => "c",
        13 => "d",
        14 => "e",
        _ => "f",
    };
    assert(text@ =~= seq![digit(d as nat)]);
    text
}

/// The digits of `n` in the given base, as text.
pub fn format_number(n: usize, base: usize) -> (text: String)
    requires
        2 <= base <= 16,
    ensures
        text@ == numeral(n as nat, base as nat),
    decreases n,
{
    if n < base {
        String::from_str(digit_text(n))
    } else {
        assert(n / base < n) by (nonlinear_arith)
            requires
                n >= base,
                base >= 2,
        ;
        let mut text = format_number(n / base, base);
        text.append(digit_text(n % base));
        text
    }
}

/// The line that shows a node that is no capture, behind `margin`.
fn format_node(zast: &ZendAst, margin: &String, count: usize) -> (line: String)
    requires
        count == present(zast@.slots).len(),
    ensures
        line@ == margin@ + node_text(zast@),
{
    proof {
        reveal_strlit("ZVAL ");
        reveal_strlit(" (");
        reveal_strlit(" children)");
        reveal_strlit(" ");
        reveal_strlit("0x");
        reveal_strlit("(");
    }
    let mut line = margin.clone();
    if zast.kind == Kind::Zval {
        line.append("ZVAL ");
        match &zast.value {
            Some(z) => {
                line.append(z.export.as_str());
            },
            None => {},
        }
        line.append(" (");
    } else {
        line.append(zast.kind.name());
        line.append(" ");
        if zast.kind.is_decl() {
            match &zast.name {
                Some(s) => {
                    line.append(s.as_str());
                },
                None => {},
            }
            line.append(" ");
        }
        if zast.attr != 0 {
            line.append("0x");
            line.append(format_number(zast.attr as usize, 16).as_str());
            line.append(" ");
        }
        line.append("(");
    }
    line.append(format_number(count, 10).as_str());
    line.append(" children)");
    assert(line@ =~= margin@ + node_text(zast@));
    line
}

/// Appends to `lines` the lines that show `zast` at the given depth, where
/// `pad` holds two spaces for each level.
fn render_into(zast: &ZendAst, pad: &String, Ghost(depth): Ghost<nat>, lines: &mut Vec<String>)
    requires
        pad@ == spaces(2 * depth),
    ensures
        lines_view(final(lines)@) == lines_view(old(lines)@) + render(zast@, depth),
    decreases height(zast@), 0nat,
{
    match unwrap(zast) {
        Some(inner) => {
            proof {
                lemma_slot_height(zast@.slots, 0);
            }
            render_into(inner, pad, Ghost(depth), lines);
        },
        None => {
            let margin = if pad.as_str().is_empty() {
                String::from_str(" ")
            } else {
                pad.clone()
            };
            proof {
                reveal_strlit(" ");
                reveal_strlit("  ");
                reveal_strlit("<$");
                reveal_strlit(">");
                assert(margin@ =~= crate::tracer::margin(depth));
            }
            match is_bind_param(zast) {
                Some(name) => {
                    let mut line = margin;
                    line.append("<$");
                    line.append(name.as_str());
                    line.append(">");
                    let ghost before = lines@;
                    assert(line@ =~= crate::tracer::margin(depth) + capture_text(name@));
                    lines.push(line);
                    assert(lines_view(lines@) =~= lines_view(before) + render(zast@, depth));
                },
                None => {
                    let children = get_children(zast);
                    let count = children.len();
                    let line = format_node(zast, &margin, count);
                    let ghost before = lines@;
                    lines.push(line);
                    let mut deeper = pad.clone();
                    deeper.append("  ");
                    assert(deeper@ =~= spaces(2 * (depth + 1)));
                    let ghost trees = present(zast@.slots);
                    let mut i: usize = 0;
                    proof {
                        lemma_present_height(zast@.slots);
                        assert(trees.take(0) =~= Seq::empty());
                        assert(lines_view(lines@) =~= lines_view(before) + seq![
                            crate::tracer::margin(depth) + node_text(zast@),
                        ] + render_all(trees.take(0), depth + 1));
                    }
                    while i < count
                        invariant
                            i <= count,
                            count == children@.len(),
                            views(children@) == trees,
                            deeper@ == spaces(2 * (depth + 1)),
                            forall|k: int| 0 <= k < trees.len() ==> height(#[trigger] trees[k]) < height(zast@),
                            lines_view(lines@) == lines_view(before) + seq![
                                crate::tracer::margin(depth) + node_text(zast@),
                            ] + render_all(trees.take(i as int), depth + 1),
                        decreases count - i,
                    {
                        proof {
                            assert(trees[i as int] == children@[i as int]@);
                            assert(trees.take(i + 1).drop_last() =~= trees.take(i as int));
                            assert(trees.take(i + 1).last() == trees[i as int]);
                        }
                        let ghost sofar = lines@;
                        render_into(children[i], &deeper, Ghost(depth + 1), lines);
                        assert(lines_view(lines@) =~= lines_view(before) + seq![
                            crate::tracer::margin(depth) + node_text(zast@),
                        ] + render_all(trees.take(i + 1), depth + 1));
                        i = i + 1;
                    }
                    assert(trees.take(count as int) =~= trees);
                },
            }
        },
    }
}

/// The lines that show `zast` and everything below it, the first at the
/// depth `indentation`.
pub fn print_node(zast: &ZendAst, indentation: usize) -> (lines: Vec<String>)
    ensures
        lines_view(lines@) == render(zast@, indentation as nat),
{
    let mut pad = String::new();
    let mut i: usize = 0;
    proof {
        reveal_strlit("  ");
        assert(pad@ =~= spaces(0));
    }
    while i < indentation
        invariant
            i <= indentation,
            pad@ == spaces(2 * (i as nat)),
        decreases indentation - i,
    {
        pad.append("  ");
        proof {
            reveal_strlit("  ");
            assert(pad@ =~= spaces(2 * ((i + 1) as nat)));
        }
        i = i + 1;
    }
    let mut lines: Vec<String> = Vec::new();
    render_into(zast, &pad, Ghost(indentation as nat), &mut lines);
    assert(lines_view(lines@) =~= render(zast@, indentation as nat));
    lines
}

/// What a rule traces of one rewrite: the pattern that matched, the node
/// before and the node after.
pub fn trace_report(pattern: &ZendAst, before: &ZendAst, after: &ZendAst) -> (lines: Vec<String>)
    ensures
        lines_view(lines@) == report(pattern@, before@, after@),
{
    proof {
        reveal_strlit("** PPHP rule match **");
        reveal_strlit("==> matched pattern:");
        reveal_strlit("==> original AST:");
        reveal_strlit("==> new AST:");
        reveal_strlit("    ");
    }
    let pad = String::from_str("    ");
    assert(pad@ =~= spaces(4));
    let mut lines: Vec<String> = Vec::new();
    lines.push(String::from_str("** PPHP rule match **"));
    lines.push(String::from_str("==> matched pattern:"));
    render_into(pattern, &pad, Ghost(2), &mut lines);
    let ghost first = lines@;
    lines.push(String::from_str("==> original AST:"));
    let ghost second = lines@;
    render_into(before, &pad, Ghost(2), &mut lines);
    let ghost third = lines@;
    lines.push(String::from_str("==> new AST:"));
    let ghost fourth = lines@;
    render_into(after, &pad, Ghost(2), &mut lines);
    proof {
        assert(lines_view(first) =~= seq!["** PPHP rule match **"@, "==> matched pattern:"@]
            + render(pattern@, 2));
        assert(lines_view(second) =~= lines_view(first) + seq!["==> original AST:"@]);
        assert(lines_view(fourth) =~= lines_view(third) + seq!["==> new AST:"@]);
    }
    lines
}

} // verus!
