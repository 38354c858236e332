//! The decoded shape of a topology document.

pub mod global_configuration;
pub mod module_configuration;
pub mod module_properties;
