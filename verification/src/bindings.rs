//! The captures of one match attempt: each capture name with the node of the
//! subject that it has captured. Nothing is copied: a capture refers to the
//! subject.

use vstd::prelude::*;
use crate::ast::ZendAst;
use crate::tree::{Env, Tree};

verus! {

/// The map that a list of names and captured trees stands for. Of two entries
/// with one name the later counts.
pub open spec fn entries_map(entries: Seq<(Seq<char>, Tree)>) -> Env
    decreases entries.len(),
{
    if entries.len() == 0 {
        Map::empty()
    } else {
        entries_map(entries.drop_last()).insert(entries.last().0, entries.last().1)
    }
}

/// Whether no name occurs twice in `entries`.
pub open spec fn distinct_names(entries: Seq<(Seq<char>, Tree)>) -> bool {
    forall|i: int, j: int| 0 <= i < j < entries.len() ==> entries[i].0 != entries[j].0
}

/// A name that no entry has is not in the map.
pub proof fn lemma_entries_absent(entries: Seq<(Seq<char>, Tree)>, name: Seq<char>)
    requires
        forall|i: int| 0 <= i < entries.len() ==> (#[trigger] entries[i]).0 != name,
    ensures
        !entries_map(entries).dom().contains(name),
    decreases entries.len(),
{
    if entries.len() > 0 {
        lemma_entries_absent(entries.drop_last(), name);
    }
}

/// The latest entry with a name gives what the map holds for the name.
pub proof fn lemma_entries_latest(entries: Seq<(Seq<char>, Tree)>, i: int)
    requires
        0 <= i < entries.len(),
        forall|j: int| i < j < entries.len() ==> (#[trigger] entries[j]).0 != entries[i].0,
    ensures
        entries_map(entries).dom().contains(entries[i].0),
        entries_map(entries)[entries[i].0] == entries[i].1,
    decreases entries.len(),
{
    if i < entries.len() - 1 {
        let rest = entries.drop_last();
        assert forall|j: int| i < j < rest.len() implies (#[trigger] rest[j]).0 != rest[i].0 by {
            assert(rest[j] == entries[j]);
        }
        lemma_entries_latest(rest, i);
    }
}

proof fn lemma_entries_found(entries: Seq<(Seq<char>, Tree)>, i: int)
    requires
        distinct_names(entries),
        0 <= i < entries.len(),
    ensures
        entries_map(entries).dom().contains(entries[i].0),
        entries_map(entries)[entries[i].0] == entries[i].1,
    decreases entries.len(),
{
    if i < entries.len() - 1 {
        lemma_entries_found(entries.drop_last(), i);
    }
}

proof fn lemma_entries_count(entries: Seq<(Seq<char>, Tree)>)
    requires
        distinct_names(entries),
    ensures
        entries_map(entries).dom().finite(),
        entries_map(entries).dom().len() == entries.len(),
    decreases entries.len(),
{
    if entries.len() > 0 {
        let rest = entries.drop_last();
        lemma_entries_count(rest);
        assert forall|i: int| 0 <= i < rest.len() implies (#[trigger] rest[i]).0
            != entries.last().0 by {
            assert(rest[i] == entries[i]);
        }
        lemma_entries_absent(rest, entries.last().0);
    }
}

proof fn lemma_entries_update(entries: Seq<(Seq<char>, Tree)>, i: int, tree: Tree)
    requires
        distinct_names(entries),
        0 <= i < entries.len(),
    ensures
        distinct_names(entries.update(i, (entries[i].0, tree))),
        entries_map(entries.update(i, (entries[i].0, tree))) == entries_map(entries).insert(
            entries[i].0,
            tree,
        ),
    decreases entries.len(),
{
    let updated = entries.update(i, (entries[i].0, tree));
    if i < entries.len() - 1 {
        lemma_entries_update(entries.drop_last(), i, tree);
        assert(updated.drop_last() =~= entries.drop_last().update(i, (entries[i].0, tree)));
        assert(entries_map(updated) =~= entries_map(entries).insert(entries[i].0, tree));
    } else {
        assert(updated.drop_last() =~= entries.drop_last());
        assert(entries_map(updated) =~= entries_map(entries).insert(entries[i].0, tree));
    }
}

/// Capture names and the nodes of the subject that they have captured.
pub struct Bindings<'a> {
    entries: Vec<(String, &'a ZendAst)>,
}

impl<'a> Bindings<'a> {
    /// The names and the models of the captured nodes, in the order in which
    /// they were captured.
    pub closed spec fn entries(&self) -> Seq<(Seq<char>, Tree)> {
        Seq::new(self.entries@.len(), |i: int| (self.entries@[i].0@, self.entries@[i].1@))
    }

    /// No name is held twice.
    #[verifier::type_invariant]
    spec fn wf(&self) -> bool {
        distinct_names(self.entries())
    }

    /// The captures as a map from name to captured tree.
    pub closed spec fn view(&self) -> Env {
        entries_map(self.entries())
    }

    /// No captures.
    pub fn new() -> (bindings: Self)
        ensures
            bindings@ == Map::<Seq<char>, Tree>::empty(),
    {
        let bindings = Bindings { entries: Vec::new() };
        assert(bindings.entries() =~= Seq::empty());
        bindings
    }

    /// The number of captures.
    pub fn len(&self) -> (count: usize)
        ensures
            self@.dom().finite(),
            count == self@.dom().len(),
    {
        proof {
            use_type_invariant(self);
            lemma_entries_count(self.entries());
        }
        self.entries.len()
    }

    /// Where `name` is held, if it is.
    fn position(&self, name: &String) -> (found: Option<usize>)
        ensures
            match found {
                Some(i) => i < self.entries@.len() && self.entries@[i as int].0@ == name@
                    && self@.dom().contains(name@) && self@[name@] == self.entries@[i as int].1@,
                None => !self@.dom().contains(name@),
            },
    {
        proof {
            use_type_invariant(self);
        }
        let mut i: usize = 0;
        while i < self.entries.len()
            invariant
                self.wf(),
                i <= self.entries.len(),
                forall|j: int| 0 <= j < i ==> (#[trigger] self.entries()[j]).0 != name@,
            decreases self.entries.len() - i,
        {
            if self.entries[i].0 == *name {
                proof {
                    lemma_entries_found(self.entries(), i as int);
                }
                return Some(i);
            }
            i = i + 1;
        }
        proof {
            lemma_entries_absent(self.entries(), name@);
        }
        None
    }

    /// Whether `name` has captured something.
    pub fn contains_key(&self, name: &String) -> (held: bool)
        ensures
            held == self@.dom().contains(name@),
    {
        self.position(name).is_some()
    }

    /// What `name` has captured, if anything.
    pub fn get(&self, name: &String) -> (node: Option<&'a ZendAst>)
        ensures
            match node {
                Some(n) => self@.dom().contains(name@) && self@[name@] == n@,
                None => !self@.dom().contains(name@),
            },
    {
        match self.position(name) {
            Some(i) => Some(self.entries[i].1),
            None => None,
        }
    }

    /// Lets `name` capture `node`, in place of what it had captured before.
    pub fn insert(&mut self, name: String, node: &'a ZendAst)
        ensures
            final(self)@ == old(self)@.insert(name@, node@),
    {
        let ghost before = self.entries();
        proof {
            use_type_invariant(&*self);
        }
        let found = self.position(&name);
        let mut taken = Bindings::new();
        core::mem::swap(self, &mut taken);
        let mut entries = taken.entries;
        match found {
            Some(i) => {
                proof {
                    lemma_entries_update(before, i as int, node@);
                }
                entries.set(i, (name, node));
            },
            None => {
                entries.push((name, node));
            },
        }
        let ghost after = Seq::new(entries@.len(), |i: int| (entries@[i].0@, entries@[i].1@));
        proof {
            match found {
                Some(i) => {
                    assert(after =~= before.update(i as int, (before[i as int].0, node@)));
                },
                None => {
                    assert(after.drop_last() =~= before);
                    assert forall|i: int, j: int| 0 <= i < j < after.len() implies after[i].0
                        != after[j].0 by {
                        if j == before.len() {
                            assert(after[i] == before[i]);
                            lemma_entries_found(before, i);
                        } else {
                            assert(after[i] == before[i]);
                            assert(after[j] == before[j]);
                        }
                    }
                },
            }
        }
        *self = Bindings { entries };
        assert(self.entries() =~= after);
    }
}

} // verus!
