//! Front end of the `zgc` compiler for the Zalaga language: tokens, lexer,
//! source paths, and the semantic type and scope tables.
pub mod ast;
pub mod cli;
pub mod diagnostics;
pub mod semantics;
