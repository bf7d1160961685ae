//! The `plugin_package` table.
use crate::timestamp::UtcDateTime;
use crate::text::{clone_opt_string, opt_str};
use vstd::prelude::*;

verus! {

/// A plugin package row.
#[derive(Clone, Debug, PartialEq, Eq)]
pub struct Model {
    pub package_id: String,
    pub package_name: String,
    pub package_version: String,
    pub description: Option<String>,
    pub plugin_store_url: Option<String>,
    pub internal_plugin: bool,
    pub verified: bool,
    pub deprecated: bool,
    pub installed_at: Option<UtcDateTime>,
    pub updated_at: Option<UtcDateTime>,
}

/// The value of [`Model`], with strings as character sequences.
#[verifier::ext_equal]
pub struct ModelView {
    pub package_id: Seq<char>,
    pub package_name: Seq<char>,
    pub package_version: Seq<char>,
    pub description: Option<Seq<char>>,
    pub plugin_store_url: Option<Seq<char>>,
    pub internal_plugin: bool,
    pub verified: bool,
    pub deprecated: bool,
    pub installed_at: Option<UtcDateTime>,
    pub updated_at: Option<UtcDateTime>,
}

impl View for Model {
    type V = ModelView;

    open spec fn view(&self) -> ModelView {
        ModelView {
            package_id: self.package_id@,
            package_name: self.package_name@,
            package_version: self.package_version@,
            description: opt_str(self.description),
            plugin_store_url: opt_str(self.plugin_store_url),
            internal_plugin: self.internal_plugin,
            verified: self.verified,
            deprecated: self.deprecated,
            installed_at: self.installed_at,
            updated_at: self.updated_at,
        }
    }
}

impl Model {
    /// A copy of this row.
    pub fn duplicate(&self) -> (r: Model)
        ensures
            r@ == self@,
    {
        Model {
            package_id: self.package_id.clone(),
            package_name: self.package_name.clone(),
            package_version: self.package_version.clone(),
            description: clone_opt_string(&self.description),
            plugin_store_url: clone_opt_string(&self.plugin_store_url),
            internal_plugin: self.internal_plugin,
            verified: self.verified,
            deprecated: self.deprecated,
            installed_at: self.installed_at,
            updated_at: self.updated_at,
        }
    }
}

} // verus!
