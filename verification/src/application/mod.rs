//! The ports the engine drives: protocol handlers and the plugins that provide them.

pub mod naming_laws;
pub mod plugin_host;
pub mod protocol;
