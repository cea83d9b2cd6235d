//! Syntax trees as the engine holds them, and the operations of the engine
//! on one tree: reading the children, removing wrappers, recognising
//! captures, matching and substituting.

use vstd::prelude::*;
use crate::kind::Kind;
use crate::pattern::arity_ok;
use crate::tree::{height, placeholder, present, sentinel, string_literal, Constant, Tree, Value};

verus! {

/// A literal value.
#[derive(Debug, PartialEq, Eq)]
pub enum Literal {
    Null,
    Bool(bool),
    Long(i64),
    /// A double, by the bit pattern that stands for it.
    Double(u64),
    Str(String),
}

impl View for Literal {
    type V = Value;

    open spec fn view(&self) -> Value {
        match self {
            Literal::Null => Value::Null,
            Literal::Bool(b) => Value::Bool(*b),
            Literal::Long(n) => Value::Long(*n as int),
            Literal::Double(bits) => Value::Double(*bits),
            Literal::Str(s) => Value::Str(s@),
        }
    }
}

impl Literal {
    /// Whether the two literals have the same type and the same value.
    pub fn is_identical(&self, other: &Literal) -> (same: bool)
        ensures
            same == (self@ == other@),
    {
        match (self, other) {
            (Literal::Null, Literal::Null) => true,
            (Literal::Bool(a), Literal::Bool(b)) => *a == *b,
            (Literal::Long(a), Literal::Long(b)) => *a == *b,
            (Literal::Double(a), Literal::Double(b)) => *a == *b,
            (Literal::Str(a), Literal::Str(b)) => *a == *b,
            _ => false,
        }
    }

    /// A copy of the literal.
    pub fn duplicate(&self) -> (copy: Literal)
        ensures
            copy@ == self@,
    {
        match self {
            Literal::Null => Literal::Null,
            Literal::Bool(b) => Literal::Bool(*b),
            Literal::Long(n) => Literal::Long(*n),
            Literal::Double(bits) => Literal::Double(*bits),
            Literal::Str(s) => Literal::Str(s.clone()),
        }
    }
}

/// The literal of a value node: the value, and the text that displays it.
#[derive(Debug, PartialEq, Eq)]
pub struct Zval {
    pub value: Literal,
    pub export: String,
}

impl View for Zval {
    type V = Constant;

    open spec fn view(&self) -> Constant {
        Constant { value: self.value@, export: self.export@ }
    }
}

/// The model of an optional literal.
pub open spec fn constant_view(value: Option<Zval>) -> Option<Constant> {
    match value {
        Some(z) => Some(z@),
        None => None,
    }
}

/// The model of an optional name.
pub open spec fn name_view(name: Option<String>) -> Option<Seq<char>> {
    match name {
        Some(s) => Some(s@),
        None => None,
    }
}

/// A node of a syntax tree, with everything below it.
#[derive(Debug, PartialEq, Eq)]
pub struct ZendAst {
    pub kind: Kind,
    pub attr: u16,
    /// The literal of a value node.
    pub value: Option<Zval>,
    /// The name of a declaration.
    pub name: Option<String>,
    /// The child slots, in order; a slot may be vacant.
    pub child: Vec<Option<ZendAst>>,
}

impl ZendAst {
    /// The model of the node.
    pub open spec fn view(&self) -> Tree
        decreases self,
    {
        Tree {
            kind: self.kind,
            attr: self.attr,
            value: constant_view(self.value),
            name: name_view(self.name),
            slots: Seq::new(
                self.child@.len(),
                |i: int|
                    if 0 <= i < self.child@.len() {
                        match self.child@[i] {
                            Some(c) => Some(c.view()),
                            None => None,
                        }
                    } else {
                        None
                    },
            ),
        }
    }
}

/// The model of a child slot.
pub open spec fn slot_view(slot: Option<ZendAst>) -> Option<Tree> {
    match slot {
        Some(c) => Some(c@),
        None => None,
    }
}

/// The models of the nodes that `nodes` refers to.
pub open spec fn views(nodes: Seq<&ZendAst>) -> Seq<Tree> {
    Seq::new(nodes.len(), |i: int| nodes[i]@)
}

/// The slots of a node's model are the models of its slots.
pub proof fn lemma_view_slots(node: &ZendAst)
    ensures
        node@.kind == node.kind,
        node@.attr == node.attr,
        node@.value == constant_view(node.value),
        node@.name == name_view(node.name),
        node@.slots.len() == node.child@.len(),
        forall|i: int|
            0 <= i < node.child@.len() ==> #[trigger] node@.slots[i] == slot_view(node.child@[i]),
{
}

impl ZendAst {
    /// A node of the given kind and attributes with the given child slots,
    /// no literal and no name.
    pub fn new(kind: Kind, attr: u16, child: Vec<Option<ZendAst>>) -> (node: ZendAst)
        ensures
            node.kind == kind,
            node.attr == attr,
            node.value is None,
            node.name is None,
            node.child == child,
    {
        ZendAst { kind, attr, value: None, name: None, child }
    }

    /// A value node that holds `value`, displayed as `export`.
    pub fn zval(attr: u16, value: Literal, export: String) -> (node: ZendAst)
        ensures
            node@ == (Tree {
                kind: Kind::Zval,
                attr,
                value: Some(Constant { value: value@, export: export@ }),
                name: None,
                slots: Seq::empty(),
            }),
    {
        let node = ZendAst {
            kind: Kind::Zval,
            attr,
            value: Some(Zval { value, export }),
            name: None,
            child: Vec::new(),
        };
        assert(node@.slots =~= Seq::empty());
        node
    }

    /// A copy of the node with everything below it.
    pub fn duplicate(&self) -> (copy: ZendAst)
        ensures
            copy@ == self@,
        decreases self,
    {
        let value = match &self.value {
            Some(z) => Some(Zval { value: z.value.duplicate(), export: z.export.clone() }),
            None => None,
        };
        let name = match &self.name {
            Some(s) => Some(s.clone()),
            None => None,
        };
        let mut child: Vec<Option<ZendAst>> = Vec::new();
        let mut i: usize = 0;
        while i < self.child.len()
            invariant
                i <= self.child.len(),
                child@.len() == i,
                forall|j: int| 0 <= j < i ==> slot_view(#[trigger] child@[j]) == slot_view(self.child@[j]),
            decreases self.child.len() - i,
        {
            let copy = match &self.child[i] {
                Some(c) => Some(c.duplicate()),
                None => None,
            };
            child.push(copy);
            i = i + 1;
        }
        let copy = ZendAst { kind: self.kind, attr: self.attr, value, name, child };
        proof {
            lemma_view_slots(&copy);
            lemma_view_slots(self);
            assert(copy@.slots =~= self@.slots);
        }
        copy
    }

    /// Whether this node has as many child slots as its kind asks for. A list
    /// has as many as it holds.
    pub fn has_arity(&self) -> (ok: bool)
        ensures
            ok == (self@.slots.len() == self@.kind.spec_slot_count(self@.slots.len())),
    {
        proof {
            lemma_view_slots(self);
        }
        self.child.len() == self.kind.slot_count(self.child.len())
    }

    /// Whether every node of the tree has as many child slots as its kind
    /// asks for.
    pub fn keeps_arity(&self) -> (ok: bool)
        ensures
            ok == arity_ok(self@),
        decreases self,
    {
        if !self.has_arity() {
            return false;
        }
        let mut i: usize = 0;
        proof {
            lemma_view_slots(self);
        }
        while i < self.child.len()
            invariant
                i <= self.child@.len(),
                self@.slots.len() == self@.kind.spec_slot_count(self@.slots.len()),
                forall|j: int|
                    0 <= j < i && self@.slots[j] is Some ==> arity_ok(#[trigger] self@.slots[j]->0),
            decreases self.child.len() - i,
        {
            proof {
                lemma_view_slots(self);
            }
            match &self.child[i] {
                Some(child) => {
                    if !child.keeps_arity() {
                        assert(self@.slots[i as int] is Some);
                        return false;
                    }
                },
                None => {},
            }
            i = i + 1;
        }
        true
    }
}

/// The children of `zast` that are there, in order.
pub fn get_children(zast: &ZendAst) -> (children: Vec<&ZendAst>)
    ensures
        views(children@) == present(zast@.slots),
{
    let mut children: Vec<&ZendAst> = Vec::new();
    let count = zast.child.len();
    let mut i: usize = 0;
    proof {
        lemma_view_slots(zast);
        assert(zast@.slots.take(0) =~= Seq::empty());
        assert(views(children@) =~= present(zast@.slots.take(0)));
    }
    while i < count
        invariant
            i <= count,
            count == zast.child@.len(),
            views(children@) == present(zast@.slots.take(i as int)),
        decreases count - i,
    {
        proof {
            lemma_view_slots(zast);
            let next = zast@.slots.take(i + 1);
            assert(next.drop_last() =~= zast@.slots.take(i as int));
            assert(next.last() == slot_view(zast.child@[i as int]));
        }
        let ghost before = children@;
        match &zast.child[i] {
            Some(child) => {
                children.push(child);
                assert(views(children@) =~= views(before).push(child@));
            },
            None => {},
        }
        i = i + 1;
    }
    proof {
        lemma_view_slots(zast);
        assert(zast@.slots.take(count as int) =~= zast@.slots);
    }
    children
}

/// What `zast` wraps, where it is a statement list with exactly one
/// statement; `None` for any other node.
pub fn unwrap(zast: &ZendAst) -> (inner: Option<&ZendAst>)
    ensures
        match inner {
            Some(node) => crate::tree::unwrap(zast@) == Some(node@),
            None => crate::tree::unwrap(zast@) is None,
        },
{
    proof {
        lemma_view_slots(zast);
    }
    if zast.kind == Kind::StmtList && zast.child.len() == 1 {
        match &zast.child[0] {
            Some(node) => Some(node),
            None => None,
        }
    } else {
        None
    }
}

/// `zast` without the single-statement wrappers around it.
pub fn unwrap_all(zast: &ZendAst) -> (inner: &ZendAst)
    ensures
        inner@ == crate::tree::unwrap_all(zast@),
{
    let mut current: &ZendAst = zast;
    loop
        invariant
            crate::tree::unwrap_all(current@) == crate::tree::unwrap_all(zast@),
        ensures
            current@ == crate::tree::unwrap_all(zast@),
        decreases height(current@),
    {
        match unwrap(current) {
            Some(node) => {
                proof {
                    crate::tree::lemma_slot_height(current@.slots, 0);
                }
                current = node;
            },
            None => {
                break;
            },
        }
    }
    current
}

/// The literal string that `zast` holds, if it is a value node that holds
/// one.
fn literal_string(zast: &ZendAst) -> (text: Option<&String>)
    ensures
        match text {
            Some(s) => string_literal(zast@) == Some(s@),
            None => string_literal(zast@) is None,
        },
{
    if zast.kind == Kind::Zval {
        match &zast.value {
            Some(z) => match &z.value {
                Literal::Str(s) => Some(s),
                _ => None,
            },
            None => None,
        }
    } else {
        None
    }
}

/// The capture name that `zast` denotes in a pattern, if it denotes one.
pub fn is_bind_param(zast: &ZendAst) -> (name: Option<String>)
    ensures
        name_view(name) == placeholder(zast@),
{
    if zast.kind == Kind::StaticProp {
        let children = get_children(zast);
        if children.len() != 2 {
            return None;
        }
        assert(views(children@)[0] == children@[0]@);
        assert(views(children@)[1] == children@[1]@);
        let class = literal_string(children[0]);
        let variable = literal_string(children[1]);
        match (class, variable) {
            (Some(class), Some(variable)) => {
                let marker = "PPHP".to_string();
                proof {
                    reveal_strlit("PPHP");
                    assert(marker@ =~= sentinel());
                }
                if *class == marker {
                    return Some(variable.clone());
                }
                None
            },
            _ => None,
        }
    } else {
        None
    }
}

/// `zast` itself without the single-statement wrappers around it.
pub fn into_unwrapped(zast: ZendAst) -> (inner: ZendAst)
    ensures
        inner@ == crate::tree::unwrap_all(zast@),
{
    let mut current = zast;
    loop
        invariant
            crate::tree::unwrap_all(current@) == crate::tree::unwrap_all(zast@),
        ensures
            current@ == crate::tree::unwrap_all(zast@),
        decreases height(current@),
    {
        proof {
            lemma_view_slots(&current);
        }
        if current.kind == Kind::StmtList && current.child.len() == 1 && current.child[0].is_some() {
            let ghost wrapper = current@;
            let mut child = current.child;
            let node = child.pop().unwrap().unwrap();
            proof {
                crate::tree::lemma_slot_height(wrapper.slots, 0);
            }
            current = node;
        } else {
            break;
        }
    }
    current
}

/// A slot: the place in a tree that holds a node. The node in it can be
/// replaced; the slot remembers whether it was.
#[derive(Debug)]
pub struct ZendAstPtr {
    node: ZendAst,
    dirty: bool,
}

impl ZendAstPtr {
    /// The model of the node in the slot.
    pub closed spec fn view(&self) -> Tree {
        self.node@
    }

    /// Whether the node in the slot has been replaced.
    pub closed spec fn spec_is_dirty(&self) -> bool {
        self.dirty
    }

    /// A slot that holds `node` and is not dirty.
    pub fn new(node: ZendAst) -> (slot: ZendAstPtr)
        ensures
            slot@ == node@,
            !slot.is_dirty(),
    {
        ZendAstPtr { node, dirty: false }
    }

    /// The node in the slot.
    pub fn deref(&self) -> (node: &ZendAst)
        ensures
            node@ == self@,
    {
        &self.node
    }

    /// The node in the slot, out of the slot.
    pub fn into_node(self) -> (node: ZendAst)
        ensures
            node@ == self@,
    {
        self.node
    }

    /// Whether the node in the slot has been replaced.
    #[verifier::when_used_as_spec(spec_is_dirty)]
    pub fn is_dirty(&self) -> (dirty: bool)
        ensures
            dirty == self.is_dirty(),
    {
        self.dirty
    }

    /// Puts `new` in the slot, in place of the node in it, and marks the slot
    /// dirty.
    pub fn replace(&mut self, new: ZendAst)
        ensures
            final(self)@ == new@,
            final(self).is_dirty(),
    {
        self.dirty = true;
        self.node = new;
    }

    /// Marks the slot dirty or not.
    pub fn set_dirty(&mut self, dirty: bool)
        ensures
            final(self)@ == old(self)@,
            final(self).is_dirty() == dirty,
    {
        self.dirty = dirty;
    }
}

} // verus!
