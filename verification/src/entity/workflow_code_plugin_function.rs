//! The `workflow_code_plugin_function` table.
use vstd::prelude::*;

verus! {

/// A row linking a workflow code to a plugin function it uses.
#[derive(Clone, Debug, PartialEq, Eq)]
pub struct Model {
    pub id: i32,
    pub workflow_code_id: String,
    pub plugin_function_id: String,
}

/// The value of [`Model`], with strings as character sequences.
#[verifier::ext_equal]
pub struct ModelView {
    pub id: i32,
    pub workflow_code_id: Seq<char>,
    pub plugin_function_id: Seq<char>,
}

impl View for Model {
    type V = ModelView;

    open spec fn view(&self) -> ModelView {
        ModelView {
            id: self.id,
            workflow_code_id: self.workflow_code_id@,
            plugin_function_id: self.plugin_function_id@,
        }
    }
}

} // verus!
