//! The row-to-message conversions for plugin packages, functions and
//! permissions, under the path the service layer imports them from.
pub use crate::convert::plugin_code::{
    permission_to_proto, plugin_function_to_proto, plugin_package_to_proto,
    plugin_package_to_proto_with_functions,
};
