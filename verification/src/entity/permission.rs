//! The `permission` table.
use crate::text::{clone_opt_string, opt_str};
use vstd::prelude::*;

verus! {

/// A permission row; `resource_json` holds the resources as a JSON array of strings.
#[derive(Clone, Debug, PartialEq, Eq)]
pub struct Model {
    pub id: i32,
    pub plugin_function_id: String,
    pub display_name: Option<String>,
    pub description: Option<String>,
    pub permission_type: i32,
    pub resource_json: Option<String>,
    pub level: Option<i32>,
}

/// The value of [`Model`], with strings as character sequences.
#[verifier::ext_equal]
pub struct ModelView {
    pub id: i32,
    pub plugin_function_id: Seq<char>,
    pub display_name: Option<Seq<char>>,
    pub description: Option<Seq<char>>,
    pub permission_type: i32,
    pub resource_json: Option<Seq<char>>,
    pub level: Option<i32>,
}

impl View for Model {
    type V = ModelView;

    open spec fn view(&self) -> ModelView {
        ModelView {
            id: self.id,
            plugin_function_id: self.plugin_function_id@,
            display_name: opt_str(self.display_name),
            description: opt_str(self.description),
            permission_type: self.permission_type,
            resource_json: opt_str(self.resource_json),
            level: self.level,
        }
    }
}

impl Model {
    /// A copy of this row.
    pub fn duplicate(&self) -> (r: Model)
        ensures
            r@ == self@,
    {
        Model {
            id: self.id,
            plugin_function_id: self.plugin_function_id.clone(),
            display_name: clone_opt_string(&self.display_name),
            description: clone_opt_string(&self.description),
            permission_type: self.permission_type,
            resource_json: clone_opt_string(&self.resource_json),
            level: self.level,
        }
    }
}

} // verus!
