//! The optimization context that is handed to the driver and to every rule:
//! the options, what the host's parser has made of the template texts, and
//! the trace that the rules have written.

use vstd::prelude::*;
use vstd::string::StringExecFns;
use crate::ast::ZendAst;
use crate::bindings::{entries_map, lemma_entries_absent, lemma_entries_latest};
use crate::matcher::node_view;
use crate::tree::Tree;

verus! {

/// What the host's parser has made of each source text that it could parse.
pub type Sources = Map<Seq<char>, Tree>;

/// The options of the engine.
#[derive(Clone, Copy, Debug, PartialEq, Eq, Structural)]
pub struct Options {
    /// Whether rules trace their rewrites.
    pub debug_trace: bool,
}

impl Options {
    /// The default options: no tracing.
    pub fn new() -> (options: Self)
        ensures
            !options.debug_trace,
    {
        Options { debug_trace: false }
    }
}

/// The context of an optimization.
pub struct PhpContext {
    options: Options,
    parsed: Vec<(String, ZendAst)>,
    trace: Vec<String>,
}

/// The views of the lines in `lines`.
pub open spec fn lines_view(lines: Seq<String>) -> Seq<Seq<char>> {
    Seq::new(lines.len(), |i: int| lines[i]@)
}

impl PhpContext {
    spec fn entries(&self) -> Seq<(Seq<char>, Tree)> {
        Seq::new(self.parsed@.len(), |i: int| (self.parsed@[i].0@, self.parsed@[i].1@))
    }

    /// The parse results on record: the tree for each source text that the
    /// host's parser could parse.
    pub closed spec fn sources(&self) -> Sources {
        entries_map(self.entries())
    }

    /// The options.
    pub closed spec fn options(&self) -> Options {
        self.options
    }

    /// The lines traced so far.
    pub closed spec fn trace(&self) -> Seq<Seq<char>> {
        lines_view(self.trace@)
    }

    /// A context with the default options, no parse result on record and an
    /// empty trace.
    pub fn new() -> (context: Self)
        ensures
            context.sources() == Map::<Seq<char>, Tree>::empty(),
            !context.options().debug_trace,
            context.trace() == Seq::<Seq<char>>::empty(),
    {
        let context = PhpContext { options: Options::new(), parsed: Vec::new(), trace: Vec::new() };
        assert(context.entries() =~= Seq::empty());
        assert(context.trace() =~= Seq::empty());
        context
    }

    /// Whether rules trace their rewrites.
    pub fn debug_trace(&self) -> (enabled: bool)
        ensures
            enabled == self.options().debug_trace,
    {
        self.options.debug_trace
    }

    /// Puts on record that the host's parser has made `tree` of `source`, in
    /// place of what was on record for `source` before.
    pub fn record_parse(&mut self, source: String, tree: ZendAst)
        ensures
            final(self).sources() == old(self).sources().insert(source@, tree@),
            final(self).options() == old(self).options(),
            final(self).trace() == old(self).trace(),
    {
        let ghost before = self.entries();
        self.parsed.push((source, tree));
        assert(self.entries().drop_last() =~= before);
    }

    /// What is on record for `source`.
    pub fn lookup(&self, source: &String) -> (tree: Option<&ZendAst>)
        ensures
            match tree {
                Some(t) => self.sources().dom().contains(source@) && self.sources()[source@] == t@,
                None => !self.sources().dom().contains(source@),
            },
    {
        let mut i: usize = self.parsed.len();
        while i > 0
            invariant
                i <= self.parsed.len(),
                forall|j: int| i <= j < self.parsed@.len() ==> (#[trigger] self.entries()[j]).0 != source@,
            decreases i,
        {
            i = i - 1;
            if self.parsed[i].0 == *source {
                proof {
                    lemma_entries_latest(self.entries(), i as int);
                }
                return Some(&self.parsed[i].1);
            }
        }
        proof {
            lemma_entries_absent(self.entries(), source@);
        }
        None
    }

    /// Appends `lines` to the trace.
    pub fn append_trace(&mut self, lines: Vec<String>)
        ensures
            final(self).trace() == old(self).trace() + lines_view(lines@),
            final(self).sources() == old(self).sources(),
            final(self).options() == old(self).options(),
    {
        let ghost before = self.trace@;
        let ghost added = lines@;
        let mut lines = lines;
        self.trace.append(&mut lines);
        assert(self.trace() =~= lines_view(before) + lines_view(added));
    }

    /// Hands out the lines traced so far and empties the trace.
    pub fn take_trace(&mut self) -> (lines: Vec<String>)
        ensures
            lines_view(lines@) == old(self).trace(),
            final(self).trace() == Seq::<Seq<char>>::empty(),
            final(self).sources() == old(self).sources(),
            final(self).options() == old(self).options(),
    {
        let mut lines: Vec<String> = Vec::new();
        core::mem::swap(&mut self.trace, &mut lines);
        assert(self.trace() =~= Seq::empty());
        lines
    }
}

/// Switches the tracing of rewrites on or off.
pub fn set_debug_trace(context: &mut PhpContext, enabled: bool)
    ensures
        final(context).options().debug_trace == enabled,
        final(context).sources() == old(context).sources(),
        final(context).trace() == old(context).trace(),
{
    context.options.debug_trace = enabled;
}

/// The text that the host's parser needs in front of a fragment.
pub open spec fn prologue() -> Seq<char> {
    seq!['<', '?', 'p', 'h', 'p', ' ']
}

/// What the host's parser has made of the source text `code`, if it is on
/// record in `context`.
pub fn parse<'a>(code: &str, context: &'a PhpContext) -> (tree: Option<&'a ZendAst>)
    ensures
        node_view(tree) == (if context.sources().dom().contains(code@) {
            Some(context.sources()[code@])
        } else {
            None
        }),
{
    let source = String::from_str(code);
    context.lookup(&source)
}

/// What the host's parser has made of the fragment `code` behind the
/// prologue, if it is on record in `context`.
pub fn parse_pattern<'a>(code: &str, context: &'a PhpContext) -> (tree: Option<&'a ZendAst>)
    ensures
        node_view(tree) == template(context.sources(), code@),
{
    let source = pattern_source(code);
    context.lookup(&source)
}

/// The source text of the fragment `code`: the fragment behind the prologue.
pub fn pattern_source(code: &str) -> (source: String)
    ensures
        source@ == prologue() + code@,
{
    let source = String::from_str("<?php ").concat(code);
    proof {
        reveal_strlit("<?php ");
        assert(source@ =~= prologue() + code@);
    }
    source
}

/// The tree on record for the fragment `code` behind the prologue.
pub open spec fn template(sources: Sources, code: Seq<char>) -> Option<Tree> {
    if sources.dom().contains(prologue() + code) {
        Some(sources[prologue() + code])
    } else {
        None
    }
}

} // verus!
