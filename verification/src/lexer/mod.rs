pub mod tokens;
pub mod table;
pub mod lexer_core;
