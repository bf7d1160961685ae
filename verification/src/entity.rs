//! The stored rows, one module per table.
pub mod model;
pub mod provider;
pub mod plugin_package;
pub mod plugin_function;
pub mod permission;
pub mod plugin_function_permission;
pub mod workflow;
pub mod workflow_code;
pub mod workflow_result;
pub mod workflow_code_allowed_permission;
pub mod workflow_code_plugin_function;
pub mod workflow_code_plugin_package;
pub mod ext_plugin_package;
