pub mod debug_text;
pub mod symbols;
pub mod rules;
pub mod analyser_core;
