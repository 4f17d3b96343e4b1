//! The semantic pass: building the statement-oriented internal
//! representation from the concrete syntax tree, and resolving the
//! hierarchical label-scoping scheme into fully-qualified names.

pub mod agreement;
pub mod ast;
pub mod label_expander;
pub mod sema_error;
pub mod validate;
