//! Front end of an assembler for a small instruction-set architecture:
//! a lexer that classifies source characters into typed tokens, a
//! recursive-descent parser that builds a concrete syntax tree, a semantic
//! pass that turns the tree into a statement-oriented internal
//! representation, and a resolver that expands label scopes into
//! fully-qualified names.

pub mod lexer;
pub mod parser;
pub mod sema;
pub mod text;
