//! The `workflow` table.
use crate::timestamp::UtcDateTime;
use crate::text::opt_str;
use vstd::prelude::*;

verus! {

/// A workflow row.
#[derive(Clone, Debug, PartialEq, Eq)]
pub struct Model {
    pub id: String,
    pub display_name: String,
    pub description: Option<String>,
    pub workflow_language: i32,
    pub created_at: Option<UtcDateTime>,
    pub updated_at: Option<UtcDateTime>,
}

/// The value of [`Model`], with strings as character sequences.
#[verifier::ext_equal]
pub struct ModelView {
    pub id: Seq<char>,
    pub display_name: Seq<char>,
    pub description: Option<Seq<char>>,
    pub workflow_language: i32,
    pub created_at: Option<UtcDateTime>,
    pub updated_at: Option<UtcDateTime>,
}

impl View for Model {
    type V = ModelView;

    open spec fn view(&self) -> ModelView {
        ModelView {
            id: self.id@,
            display_name: self.display_name@,
            description: opt_str(self.description),
            workflow_language: self.workflow_language,
            created_at: self.created_at,
            updated_at: self.updated_at,
        }
    }
}

} // verus!
