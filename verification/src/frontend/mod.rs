//! Scanning and parsing of source text, and the intermediate code.

pub mod ast;
pub mod debug;
pub mod grammar;
pub mod ir;
pub mod lexical;
pub mod nesting;
pub mod parser;
pub mod scanner;
pub mod source;
pub mod stream;
