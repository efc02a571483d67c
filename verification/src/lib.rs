//! Binding-declaration collector and host-language adapter builder.
//!
//! The crate has two halves that share one abstract syntax tree.  The
//! collector half (`attrs`, `ast`, `parser`, `symbols`) lowers decorated
//! declarations into a `Program`: it parses the fixed attribute vocabulary,
//! audits that every attribute bag is checked exactly once, validates the
//! declarations and computes the deterministic shim symbols.  The builder
//! half (`jsgen`) assembles, out of a binding's instruction streams, the
//! source text of a host-language adapter function together with its
//! typescript signature and doc header.

pub mod ast;
pub mod decl;
pub mod jsgen;
pub mod attrs;
pub mod parser;
pub mod symbols;
pub mod text;
