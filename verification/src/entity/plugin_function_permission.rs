//! The `plugin_function_permission` table.
use vstd::prelude::*;

verus! {

/// A row linking a plugin function to one of its permissions.
#[derive(Clone, Debug, PartialEq, Eq)]
pub struct Model {
    pub id: i32,
    pub plugin_function_id: String,
    pub permission_id: String,
}

/// The value of [`Model`], with strings as character sequences.
#[verifier::ext_equal]
pub struct ModelView {
    pub id: i32,
    pub plugin_function_id: Seq<char>,
    pub permission_id: Seq<char>,
}

impl View for Model {
    type V = ModelView;

    open spec fn view(&self) -> ModelView {
        ModelView {
            id: self.id,
            plugin_function_id: self.plugin_function_id@,
            permission_id: self.permission_id@,
        }
    }
}

} // verus!
