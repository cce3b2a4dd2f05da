//! A compiler for a small S-expression language that emits WebAssembly text.
//!
//! Source text is scanned into tokens, parsed into a tree of [`frontend::ast::Node`]
//! values and emitted as one module of WebAssembly text by [`codegen::emitter::Emitter`].

pub mod codegen;
pub mod frontend;
pub mod text;
