//! A compiler for ResIR, a small intermediate representation, into C:
//! a table-driven lexer, a recursive-descent parser, a control-flow graph,
//! a semantic analyser and a C code generator.

pub mod text;
pub mod lexer;
pub mod parser;
pub mod semantic;
pub mod codegen;
pub mod datalog;
