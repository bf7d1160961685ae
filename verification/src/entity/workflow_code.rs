//! The `workflow_code` table.
use crate::timestamp::UtcDateTime;
use vstd::prelude::*;

verus! {

/// A workflow code revision row.
#[derive(Clone, Debug, PartialEq, Eq)]
pub struct Model {
    pub id: String,
    pub workflow_id: String,
    pub code_revision: i32,
    pub code: String,
    pub language: i32,
    pub created_at: Option<UtcDateTime>,
}

/// The value of [`Model`], with strings as character sequences.
#[verifier::ext_equal]
pub struct ModelView {
    pub id: Seq<char>,
    pub workflow_id: Seq<char>,
    pub code_revision: i32,
    pub code: Seq<char>,
    pub language: i32,
    pub created_at: Option<UtcDateTime>,
}

impl View for Model {
    type V = ModelView;

    open spec fn view(&self) -> ModelView {
        ModelView {
            id: self.id@,
            workflow_id: self.workflow_id@,
            code_revision: self.code_revision,
            code: self.code@,
            language: self.language,
            created_at: self.created_at,
        }
    }
}

} // verus!
