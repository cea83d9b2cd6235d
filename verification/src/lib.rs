//! A rule-based peephole rewriting engine for abstract syntax trees.
//!
//! A rule is a pair of patterns: a search pattern, which is matched against a
//! subtree and captures parts of it, and a replacement, into which the
//! captured parts are put. A driver applies every registered rule at every
//! node and repeats full passes until a pass changes nothing.
//!
//! The trees come from a host, which parses source text and template text;
//! the engine holds them as values of its own. What the host's parser makes
//! of a template is put on record in the context that every rule is handed.
//!
//! - [`kind`], [`tree`]: the kinds of nodes and the model of a tree.
//! - [`pattern`]: what matching and substitution mean.
//! - [`ast`], [`bindings`], [`matcher`], [`substituter`]: trees, captures,
//!   and the matcher and the substituter themselves.
//! - [`context`], [`tracer`]: the optimization context and the debug trace.
//! - [`rules`]: the rule contract, the built-in rules, the registry and the
//!   driver.
//! - [`laws`]: what holds of all of these.

pub mod ast;
pub mod bindings;
pub mod context;
pub mod kind;
pub mod laws;
pub mod matcher;
pub mod pattern;
pub mod rules;
pub mod substituter;
pub mod tracer;
pub mod tree;
