//! The front end of the compiler: from the syntax tree to a typed intermediate
//! representation, with the names resolved and the references counted.

pub mod frontend;
pub mod hir;
pub mod laws;
pub mod lexer;
pub mod lowering;
pub mod report;
pub mod symbols;
pub mod types;
pub mod var;

pub use frontend::FlycatcherFrontend;
pub use hir::{Hir, HirMeta};
pub use symbols::SymbolTable;
pub use types::FlycatcherType;
pub use var::VariableType;
