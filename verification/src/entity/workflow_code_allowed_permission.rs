//! The `workflow_code_allowed_permission` table.
use vstd::prelude::*;

verus! {

/// A row granting a permission to a workflow code.
#[derive(Clone, Debug, PartialEq, Eq)]
pub struct Model {
    pub id: i32,
    pub workflow_code_id: String,
    pub permission_id: i32,
}

/// The value of [`Model`], with strings as character sequences.
#[verifier::ext_equal]
pub struct ModelView {
    pub id: i32,
    pub workflow_code_id: Seq<char>,
    pub permission_id: i32,
}

impl View for Model {
    type V = ModelView;

    open spec fn view(&self) -> ModelView {
        ModelView {
            id: self.id,
            workflow_code_id: self.workflow_code_id@,
            permission_id: self.permission_id,
        }
    }
}

} // verus!
