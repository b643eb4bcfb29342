//! Front end of the Flycatcher compiler: lexing, parsing and lowering to a
//! typed intermediate representation, with machine-checked contracts.

pub mod ast;
pub mod compiler;
pub mod diagnostic;
pub mod lexer;
pub mod link;
pub mod mem;
pub mod parser;
pub mod resolve;
pub mod text;
pub mod types;
