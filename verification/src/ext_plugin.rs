//! Externally installed plugin packages: their rows and the missing flag.
use crate::entity::ext_plugin_package::{Model as ExtPluginPackage, ModelView as ExtPluginRow};
use vstd::prelude::*;

verus! {

/// The row recording a newly installed external package: not missing.
pub fn new_ext_plugin_package(plugin_package_id: String, install_dir: String) -> (r:
    ExtPluginPackage)
    ensures
        r@ == (ExtPluginRow {
            plugin_package_id: plugin_package_id@,
            install_dir: install_dir@,
            missing: false,
        }),
{
    ExtPluginPackage { plugin_package_id, install_dir, missing: false }
}

/// The error text when no external package has the requested id.
pub open spec fn ext_plugin_not_found_text(plugin_package_id: Seq<char>) -> Seq<char> {
    "External plugin package not found: "@ + plugin_package_id
}

/// The row of the looked-up external package with its missing flag set to
/// `missing`, or the not-found error text when there is no such package.
pub fn mark_missing(found: Option<ExtPluginPackage>, plugin_package_id: &str, missing: bool) -> (r:
    Result<ExtPluginPackage, String>)
    ensures
        match found {
            Some(m) => r matches Ok(u) && u@ == (ExtPluginRow { missing, ..m@ }),
            None => r matches Err(e) && e@ == ext_plugin_not_found_text(plugin_package_id@),
        },
{
    match found {
        Some(m) => Ok(ExtPluginPackage { missing, ..m }),
        None => {
            let mut text = String::from_str("External plugin package not found: ");
            text.append(plugin_package_id);
            Err(text)
        },
    }
}

} // verus!
