//! The mathematical model of a syntax tree and of the operations on it:
//! wrapper removal, capture recognition, matching and substitution.

use vstd::prelude::*;
use crate::kind::Kind;

verus! {

/// A literal value: its type and what it holds.
pub enum Value {
    Null,
    Bool(bool),
    Long(int),
    /// A double, by the bit pattern that stands for it. Doubles that the
    /// provider of the tree holds identical have one pattern.
    Double(u64),
    Str(Seq<char>),
}

/// The literal of a value node: the value, and the text that displays it.
pub ghost struct Constant {
    pub value: Value,
    pub export: Seq<char>,
}

/// A node with everything below it.
pub ghost struct Tree {
    pub kind: Kind,
    pub attr: u16,
    /// The literal of a value node.
    pub value: Option<Constant>,
    /// The name of a declaration.
    pub name: Option<Seq<char>>,
    /// The child slots, in order; a slot may be vacant.
    pub slots: Seq<Option<Tree>>,
}

/// Capture names and what each has captured.
pub type Env = Map<Seq<char>, Tree>;

/// The identifier that marks a capture in a pattern.
pub open spec fn sentinel() -> Seq<char> {
    seq!['P', 'P', 'H', 'P']
}

/// Strict identity of two literals: the same type and the same value, with
/// no coercion. The text that displays a literal plays no part.
pub open spec fn identical(a: Option<Constant>, b: Option<Constant>) -> bool {
    match (a, b) {
        (Some(x), Some(y)) => x.value == y.value,
        (None, None) => true,
        _ => false,
    }
}

/// The children that are there, in order.
pub open spec fn present(slots: Seq<Option<Tree>>) -> Seq<Tree>
    decreases slots.len(),
{
    if slots.len() == 0 {
        Seq::empty()
    } else {
        match slots.last() {
            Some(c) => present(slots.drop_last()).push(c),
            None => present(slots.drop_last()),
        }
    }
}

/// The number of nodes on the longest path from `t` down to a leaf.
pub open spec fn height(t: Tree) -> nat
    decreases t,
{
    1 + slots_height(t.slots)
}

/// The largest height among the children in `slots`; 0 where there is none.
pub open spec fn slots_height(slots: Seq<Option<Tree>>) -> nat
    decreases slots,
{
    if slots.len() == 0 {
        0
    } else {
        let rest = slots_height(slots.drop_last());
        match slots.last() {
            Some(c) => if height(c) > rest {
                height(c)
            } else {
                rest
            },
            None => rest,
        }
    }
}

/// The largest height among `trees`; 0 where there is none.
pub open spec fn forest_height(trees: Seq<Tree>) -> nat
    decreases trees.len(),
{
    if trees.len() == 0 {
        0
    } else {
        let rest = forest_height(trees.drop_last());
        if height(trees.last()) > rest {
            height(trees.last())
        } else {
            rest
        }
    }
}

/// A child is no higher than the row of slots that it sits in.
pub proof fn lemma_slot_height(slots: Seq<Option<Tree>>, i: int)
    requires
        0 <= i < slots.len(),
        slots[i] is Some,
    ensures
        height(slots[i]->0) <= slots_height(slots),
    decreases slots.len(),
{
    if i < slots.len() - 1 {
        lemma_slot_height(slots.drop_last(), i);
    }
}

/// A tree is no higher than the row that it stands in.
pub proof fn lemma_forest_height(trees: Seq<Tree>, i: int)
    requires
        0 <= i < trees.len(),
    ensures
        height(trees[i]) <= forest_height(trees),
    decreases trees.len(),
{
    if i < trees.len() - 1 {
        lemma_forest_height(trees.drop_last(), i);
    }
}

/// A row of trees is no higher than a bound on the height of each.
pub proof fn lemma_forest_height_bound(trees: Seq<Tree>, bound: nat)
    requires
        forall|i: int| 0 <= i < trees.len() ==> height(#[trigger] trees[i]) <= bound,
    ensures
        forest_height(trees) <= bound,
    decreases trees.len(),
{
    if trees.len() > 0 {
        lemma_forest_height_bound(trees.drop_last(), bound);
    }
}

/// Every child that is there sits in some slot.
pub proof fn lemma_present_from_slot(slots: Seq<Option<Tree>>, k: int) -> (i: int)
    requires
        0 <= k < present(slots).len(),
    ensures
        0 <= i < slots.len(),
        slots[i] == Some(present(slots)[k]),
    decreases slots.len(),
{
    if slots.last() is Some && k == present(slots).len() - 1 {
        slots.len() - 1
    } else {
        lemma_present_from_slot(slots.drop_last(), k)
    }
}

/// Every child that sits in a slot is among the children that are there.
pub proof fn lemma_slot_in_present(slots: Seq<Option<Tree>>, i: int) -> (k: int)
    requires
        0 <= i < slots.len(),
        slots[i] is Some,
    ensures
        0 <= k < present(slots).len(),
        present(slots)[k] == slots[i]->0,
    decreases slots.len(),
{
    if i == slots.len() - 1 {
        present(slots).len() - 1
    } else {
        lemma_slot_in_present(slots.drop_last(), i)
    }
}

/// The children that are there are no higher than the row of their slots.
pub proof fn lemma_present_height(slots: Seq<Option<Tree>>)
    ensures
        forest_height(present(slots)) <= slots_height(slots),
        forall|k: int|
            0 <= k < present(slots).len() ==> height(#[trigger] present(slots)[k])
                <= slots_height(slots),
{
    assert forall|k: int| 0 <= k < present(slots).len() implies height(
        #[trigger] present(slots)[k],
    ) <= slots_height(slots) by {
        let i = lemma_present_from_slot(slots, k);
        lemma_slot_height(slots, i);
    }
    lemma_forest_height_bound(present(slots), slots_height(slots));
}

/// A row of slots is no higher than a bound on the height of each child.
pub proof fn lemma_slots_height_bound(slots: Seq<Option<Tree>>, bound: nat)
    requires
        forall|i: int|
            0 <= i < slots.len() && slots[i] is Some ==> height(#[trigger] slots[i]->0) <= bound,
    ensures
        slots_height(slots) <= bound,
    decreases slots.len(),
{
    if slots.len() > 0 {
        assert(slots.last() == slots[slots.len() - 1]);
        lemma_slots_height_bound(slots.drop_last(), bound);
    }
}

/// A row of slots without its first slot is no higher than the row.
pub proof fn lemma_slots_height_drop_first(slots: Seq<Option<Tree>>)
    requires
        slots.len() > 0,
    ensures
        slots_height(slots.drop_first()) <= slots_height(slots),
{
    assert forall|i: int|
        0 <= i < slots.drop_first().len() && slots.drop_first()[i] is Some implies height(
        #[trigger] slots.drop_first()[i]->0,
    ) <= slots_height(slots) by {
        lemma_slot_height(slots, i + 1);
    }
    lemma_slots_height_bound(slots.drop_first(), slots_height(slots));
}

/// A row of trees without its last tree is no higher than the row.
pub proof fn lemma_forest_height_drop_last(trees: Seq<Tree>)
    requires
        trees.len() > 0,
    ensures
        forest_height(trees.drop_last()) <= forest_height(trees),
{
}

/// A row of trees without its first tree is no higher than the row.
pub proof fn lemma_forest_height_drop_first(trees: Seq<Tree>)
    requires
        trees.len() > 0,
    ensures
        forest_height(trees.drop_first()) <= forest_height(trees),
{
    assert forall|i: int| 0 <= i < trees.drop_first().len() implies height(
        #[trigger] trees.drop_first()[i],
    ) <= forest_height(trees) by {
        lemma_forest_height(trees, i + 1);
    }
    lemma_forest_height_bound(trees.drop_first(), forest_height(trees));
}

/// What a statement wrapper with exactly one statement wraps; `None` for any
/// other node.
pub open spec fn unwrap(t: Tree) -> Option<Tree> {
    if t.kind == Kind::StmtList && t.slots.len() == 1 {
        t.slots[0]
    } else {
        None
    }
}

/// `t` without the single-statement wrappers around it.
pub open spec fn unwrap_all(t: Tree) -> Tree
    decreases t,
{
    match unwrap(t) {
        Some(inner) => unwrap_all(inner),
        None => t,
    }
}

/// A tree without its wrappers is no higher than the tree, and is no
/// wrapper.
pub proof fn lemma_unwrap_all_height(t: Tree)
    ensures
        height(unwrap_all(t)) <= height(t),
        unwrap(unwrap_all(t)) is None,
    decreases t,
{
    match unwrap(t) {
        Some(inner) => {
            lemma_unwrap_all_height(inner);
            lemma_slot_height(t.slots, 0);
        },
        None => {},
    }
}

/// The literal string that `t` holds, if it is a value node that holds one.
pub open spec fn string_literal(t: Tree) -> Option<Seq<char>> {
    if t.kind == Kind::Zval {
        match t.value {
            Some(Constant { value: Value::Str(s), .. }) => Some(s),
            _ => None,
        }
    } else {
        None
    }
}

/// The capture name that `t` denotes in a pattern, if it denotes one: `t` is
/// a static property reference with two children, the first the literal
/// string `sentinel()`, the second a literal string, which is the name.
pub open spec fn placeholder(t: Tree) -> Option<Seq<char>> {
    let children = present(t.slots);
    if t.kind == Kind::StaticProp && children.len() == 2 && string_literal(children[0]) == Some(
        sentinel(),
    ) {
        string_literal(children[1])
    } else {
        None
    }
}

} // verus!
