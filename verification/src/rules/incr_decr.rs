//! Increments, decrements and compound assignments.

use vstd::prelude::*;
use vstd::string::StringExecFns;
use crate::ast::ZendAstPtr;
use crate::context::{PhpContext, Sources};
use crate::rules::{
    apply_pairs, optimize_with, pair, pairs_rewritten, texts_view, AstOptimizationRule,
};
use crate::tree::Tree;

verus! {

/// Normalises increments, decrements and assignments that combine a variable
/// with itself.
#[derive(Debug)]
pub struct IncrDecr;

impl IncrDecr {
    /// The rule.
    pub fn new() -> (rule: Self)
        ensures
            rule == IncrDecr,
    {
        IncrDecr
    }

    /// The binary operators that have an assignment form.
    pub open spec fn spec_operators() -> Seq<Seq<char>> {
        seq!["*"@, "/"@, "+"@, "-"@, "**"@, "%"@, "<<"@, ">>"@, "."@, "|"@, "&"@]
    }

    /// The pair that turns an assignment of a variable combined with
    /// something by `op` into the assignment form of `op`.
    pub open spec fn spec_compound(op: Seq<char>) -> (Seq<char>, Seq<char>) {
        (
            "PPHP::$_1 = PPHP::$_1 "@ + op + " PPHP::$_2;"@,
            "PPHP::$_1 "@ + op + "= PPHP::$_2;"@,
        )
    }

    /// The search and replace pairs of the rule, in the order in which it
    /// applies them: postfix to prefix in the increment clause of a `for`
    /// loop, adding or subtracting 1 as an increment or decrement, and then
    /// the assignment form for each operator of `spec_operators()`.
    pub open spec fn spec_templates() -> Seq<(Seq<char>, Seq<char>)> {
        seq![
            (
                "for (PPHP::$_1; PPHP::$_2; PPHP::$iter++) PPHP::$_3;"@,
                "for (PPHP::$_1; PPHP::$_2; ++PPHP::$iter) PPHP::$_3;"@,
            ),
            (
                "for (PPHP::$_1; PPHP::$_2; PPHP::$iter--) PPHP::$_3;"@,
                "for (PPHP::$_1; PPHP::$_2; --PPHP::$iter) PPHP::$_3;"@,
            ),
            ("PPHP::$_1 += 1;"@, "++PPHP::$_1;"@),
            ("PPHP::$_1 -= 1;"@, "--PPHP::$_1;"@),
        ] + Seq::new(
            Self::spec_operators().len(),
            |i: int| Self::spec_compound(Self::spec_operators()[i]),
        )
    }

    /// The binary operators that have an assignment form.
    pub fn operators() -> (ops: Vec<&'static str>)
        ensures
            ops@.len() == Self::spec_operators().len(),
            forall|i: int| 0 <= i < ops@.len() ==> (#[trigger] ops@[i])@ == Self::spec_operators()[i],
    {
        let mut ops: Vec<&'static str> = Vec::new();
        ops.push("*");
        ops.push("/");
        ops.push("+");
        ops.push("-");
        ops.push("**");
        ops.push("%");
        ops.push("<<");
        ops.push(">>");
        ops.push(".");
        ops.push("|");
        ops.push("&");
        ops
    }

    /// The pair that turns an assignment of a variable combined with
    /// something by `op` into the assignment form of `op`.
    pub fn compound(op: &str) -> (texts: (String, String))
        ensures
            (texts.0@, texts.1@) == Self::spec_compound(op@),
    {
        let search = String::from_str("PPHP::$_1 = PPHP::$_1 ").concat(op).concat(" PPHP::$_2;");
        let replace = String::from_str("PPHP::$_1 ").concat(op).concat("= PPHP::$_2;");
        (search, replace)
    }

    /// The search and replace pairs of the rule, in the order in which it
    /// applies them.
    pub fn templates() -> (pairs: Vec<(String, String)>)
        ensures
            texts_view(pairs@) == Self::spec_templates(),
    {
        let mut pairs: Vec<(String, String)> = Vec::new();
        pairs.push(
            pair(
                "for (PPHP::$_1; PPHP::$_2; PPHP::$iter++) PPHP::$_3;",
                "for (PPHP::$_1; PPHP::$_2; ++PPHP::$iter) PPHP::$_3;",
            ),
        );
        pairs.push(
            pair(
                "for (PPHP::$_1; PPHP::$_2; PPHP::$iter--) PPHP::$_3;",
                "for (PPHP::$_1; PPHP::$_2; --PPHP::$iter) PPHP::$_3;",
            ),
        );
        pairs.push(pair("PPHP::$_1 += 1;", "++PPHP::$_1;"));
        pairs.push(pair("PPHP::$_1 -= 1;", "--PPHP::$_1;"));
        let ops = Self::operators();
        let mut i: usize = 0;
        while i < ops.len()
            invariant
                i <= ops@.len(),
                ops@.len() == Self::spec_operators().len(),
                forall|k: int|
                    0 <= k < ops@.len() ==> (#[trigger] ops@[k])@ == Self::spec_operators()[k],
                pairs@.len() == 4 + i,
                texts_view(pairs@) == Self::spec_templates().take(4 + i),
            decreases ops@.len() - i,
        {
            let texts = Self::compound(ops[i]);
            pairs.push(texts);
            assert(texts_view(pairs@) =~= Self::spec_templates().take(4 + i + 1));
            i = i + 1;
        }
        assert(Self::spec_templates().take(4 + i) =~= Self::spec_templates());
        pairs
    }
}

impl AstOptimizationRule for IncrDecr {
    open spec fn rewritten(&self, sources: Sources, node: Tree) -> Option<Tree> {
        pairs_rewritten(sources, Self::spec_templates(), node)
    }

    open spec fn traced(&self, sources: Sources, node: Tree) -> Seq<Seq<char>> {
        apply_pairs(sources, Self::spec_templates(), node).trace
    }

    fn optimize(&self, ast: &mut ZendAstPtr, context: &mut PhpContext) {
        let pairs = Self::templates();
        optimize_with(&pairs, ast, context);
    }
}

} // verus!
