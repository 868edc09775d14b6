//! Which exports of a namespace a WebAssembly build suspends through JSPI.

pub mod exports;
pub mod laws;
pub mod meaning_laws;
pub mod namespace;
pub mod namespace_laws;
pub mod namespace_meaning_laws;
pub mod select;
pub mod selection;
pub mod selector;
pub mod target;
pub mod wasm2;
