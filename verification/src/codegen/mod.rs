//! Emission of WebAssembly text.

pub mod emitter;
pub mod instructions;
pub mod module;
