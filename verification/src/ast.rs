pub mod ast_types;
pub mod grammar;
pub mod lexer;
pub mod numbers;
pub mod syntax;
pub mod syntax_laws;
pub mod tree;
