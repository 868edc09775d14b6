//! Decisions behind the Node-API and JSPI side of a UniFFI bindings generator.

pub mod cargo_args;
pub mod case;
pub mod command;
pub mod config;
pub mod contract;
pub mod contract_laws;
pub mod ffi;
pub mod jspi;
pub mod loader;
pub mod manifest;
pub mod name_set;
pub mod paths;
pub mod plan;
pub mod runner;
pub mod text;
