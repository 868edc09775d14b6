//! The FFI definitions that the Node-API bindings declare.

pub mod component;
pub mod definitions;
pub mod laws;
pub mod meaning_laws;
pub mod name_map;
pub mod order_laws;
pub mod roles;
