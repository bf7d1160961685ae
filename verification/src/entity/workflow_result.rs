//! The `workflow_result` table.
use crate::timestamp::UtcDateTime;
use crate::text::opt_str;
use vstd::prelude::*;

verus! {

/// A workflow run result row.
#[derive(Clone, Debug, PartialEq, Eq)]
pub struct Model {
    pub id: String,
    pub workflow_id: String,
    pub workflow_code_id: String,
    pub display_name: Option<String>,
    pub description: Option<String>,
    pub result: Option<String>,
    pub ran_at: Option<UtcDateTime>,
    pub result_type: i32,
    pub exit_code: Option<i32>,
    pub workflow_result_revision: i32,
}

/// The value of [`Model`], with strings as character sequences.
#[verifier::ext_equal]
pub struct ModelView {
    pub id: Seq<char>,
    pub workflow_id: Seq<char>,
    pub workflow_code_id: Seq<char>,
    pub display_name: Option<Seq<char>>,
    pub description: Option<Seq<char>>,
    pub result: Option<Seq<char>>,
    pub ran_at: Option<UtcDateTime>,
    pub result_type: i32,
    pub exit_code: Option<i32>,
    pub workflow_result_revision: i32,
}

impl View for Model {
    type V = ModelView;

    open spec fn view(&self) -> ModelView {
        ModelView {
            id: self.id@,
            workflow_id: self.workflow_id@,
            workflow_code_id: self.workflow_code_id@,
            display_name: opt_str(self.display_name),
            description: opt_str(self.description),
            result: opt_str(self.result),
            ran_at: self.ran_at,
            result_type: self.result_type,
            exit_code: self.exit_code,
            workflow_result_revision: self.workflow_result_revision,
        }
    }
}

} // verus!
