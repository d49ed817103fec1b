//! Host-side core of an extension runtime: binding keys, function reference
//! slots and the registry that binds one to the other.

pub mod binding_key;
pub mod bindings;
pub mod function_registry;
pub mod registry_laws;
pub mod registry_state;
pub mod slot;
