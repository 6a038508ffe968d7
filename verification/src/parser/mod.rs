pub mod ir;
pub mod literals;
pub mod grammar;
pub mod parser_core;
pub mod cfg;
