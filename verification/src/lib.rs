//! Verified core of the desktop clipboard bridge and the plugin error registry.

pub mod decimal;
pub mod hex;
pub mod trusted;
pub mod clipboard;
pub mod image_response;
pub mod paste;
pub mod text;
pub mod plugin_validation;
pub mod plugin_registry;
pub mod rate_limit;
