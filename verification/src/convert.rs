//! Conversions between stored rows and protocol messages.
pub mod model;
pub mod provider;
pub mod plugin_code;
pub mod plugin;
pub mod workflow_code;
