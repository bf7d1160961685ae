//! Verified core of the Sapphillon workflow orchestrator: page tokens,
//! timestamps, conversions between stored rows and protocol messages, the
//! plugin catalog registration planner, workflow assembly and synchronisation
//! planning, and the permission rules of the builtin plugins.
pub mod page_token;
pub mod timestamp;
pub mod text;
pub mod proto;
pub mod entity;
pub mod resource_json;
pub mod convert;
pub mod plugin_registry;
pub mod sync_rows;
pub mod workflow;
pub mod workflow_sync;
pub mod ext_plugin;
pub mod plugin_listing;
pub mod permission_check;
pub mod plugins;
pub mod test_state;
pub mod schema;

pub use crate::test_state::TestState;
