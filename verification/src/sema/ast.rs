//! The internal representation: statement-oriented, semantically typed
//! values built once from the concrete syntax tree.

pub mod assignment;
pub mod data_type;
pub mod export_directive;
pub mod file;
pub mod helpers;
pub mod import_directive;
pub mod instruction;
pub mod instruction_arg;
pub mod label_directive;
pub mod labels;
pub mod macro_call;
pub mod macro_arg;
pub mod res_directive;
pub mod statement;
