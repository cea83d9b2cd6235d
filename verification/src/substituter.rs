//! The substituter: puts what a match has captured into a replacement.

use vstd::prelude::*;
use crate::ast::{is_bind_param, lemma_view_slots, slot_view, ZendAst, ZendAstPtr};
use crate::bindings::Bindings;
use crate::pattern::{covers, substitute};
use crate::tree::{height, lemma_slot_height, placeholder};

verus! {

/// Whether `bindings` holds every capture that stands in `template`.
pub fn binds_all(bindings: &Bindings, template: &ZendAst) -> (all: bool)
    ensures
        all == covers(bindings@, template@),
    decreases height(template@),
{
    match is_bind_param(template) {
        Some(name) => bindings.contains_key(&name),
        None => {
            let count = template.child.len();
            let mut i: usize = 0;
            proof {
                lemma_view_slots(template);
            }
            while i < count
                invariant
                    i <= count,
                    count == template.child@.len(),
                    placeholder(template@) is None,
                    forall|j: int|
                        0 <= j < i && template@.slots[j] is Some ==> covers(
                            bindings@,
                            #[trigger] template@.slots[j]->0,
                        ),
                decreases count - i,
            {
                proof {
                    lemma_view_slots(template);
                }
                match &template.child[i] {
                    Some(child) => {
                        proof {
                            lemma_slot_height(template@.slots, i as int);
                        }
                        if !binds_all(bindings, child) {
                            assert(template@.slots[i as int] is Some);
                            return false;
                        }
                    },
                    None => {},
                }
                i = i + 1;
            }
            true
        },
    }
}

/// Replaces every capture in `ast` with a copy of what `bindings` holds for
/// it. What is put in is not looked into.
pub fn bind_sub(ast: &mut ZendAst, bindings: &Bindings)
    requires
        covers(bindings@, old(ast)@),
    ensures
        final(ast)@ == substitute(old(ast)@, bindings@),
    decreases height(old(ast)@),
{
    match is_bind_param(ast) {
        Some(name) => {
            match bindings.get(&name) {
                Some(held) => {
                    *ast = held.duplicate();
                },
                None => {},
            }
        },
        None => {
            let count = ast.child.len();
            let mut i: usize = 0;
            proof {
                lemma_view_slots(ast);
            }
            while i < count
                invariant
                    i <= count,
                    count == ast.child@.len(),
                    count == old(ast).child@.len(),
                    placeholder(old(ast)@) is None,
                    covers(bindings@, old(ast)@),
                    ast.kind == old(ast).kind,
                    ast.attr == old(ast).attr,
                    ast.value == old(ast).value,
                    ast.name == old(ast).name,
                    forall|j: int|
                        0 <= j < i ==> slot_view(#[trigger] ast.child@[j]) == substitute(
                            old(ast)@,
                            bindings@,
                        ).slots[j],
                    forall|j: int| i <= j < count ==> #[trigger] ast.child@[j] == old(ast).child@[j],
                decreases count - i,
            {
                proof {
                    lemma_view_slots(old(ast));
                }
                match &mut ast.child[i] {
                    Some(child) => {
                        proof {
                            lemma_slot_height(old(ast)@.slots, i as int);
                            assert(old(ast)@.slots[i as int] is Some);
                        }
                        bind_sub(child, bindings);
                    },
                    None => {},
                }
                i = i + 1;
            }
            proof {
                lemma_view_slots(ast);
                assert(ast@.slots =~= substitute(old(ast)@, bindings@).slots);
            }
        },
    }
}

impl ZendAstPtr {
    /// Where the node in the slot is a capture, puts a copy of what
    /// `bindings` holds for it in its place and marks the slot dirty.
    /// `bindings` must hold the capture.
    pub fn bind_sub_replace(&mut self, bindings: &Bindings)
        requires
            placeholder(old(self)@) matches Some(name) ==> bindings@.dom().contains(name),
        ensures
            match placeholder(old(self)@) {
                Some(name) => final(self)@ == bindings@[name] && final(self).is_dirty(),
                None => final(self)@ == old(self)@ && final(self).is_dirty() == old(self).is_dirty(),
            },
    {
        match is_bind_param(self.deref()) {
            Some(name) => {
                match bindings.get(&name) {
                    Some(held) => {
                        self.replace(held.duplicate());
                    },
                    None => {},
                }
            },
            None => {},
        }
    }
}

} // verus!
