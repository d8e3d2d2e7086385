//! Semantic core of a small expression language: symbol resolution across
//! modules and imports, a memoizing compiled-function store keyed by
//! (definition site, argument types), lowering of function bodies into a typed
//! instruction tree, and a small evaluator for that tree.
//!
//! Parsing of source text and console wiring are outside collaborators; the
//! library works on a plain abstract syntax tree and on byte/text buffers.

pub mod ast;
pub mod compile;
pub mod eval;
pub mod ids;
pub mod instr;
pub mod laws;
pub mod modules;
pub mod scope;
pub mod store;
pub mod types;
pub mod value;
