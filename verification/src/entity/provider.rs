//! The `provider` table.
use vstd::prelude::*;

verus! {

/// An AI provider row.
#[derive(Clone, Debug, PartialEq, Eq)]
pub struct Model {
    pub name: String,
    pub display_name: String,
    pub api_key: String,
    pub api_endpoint: String,
}

/// The value of [`Model`], with strings as character sequences.
#[verifier::ext_equal]
pub struct ModelView {
    pub name: Seq<char>,
    pub display_name: Seq<char>,
    pub api_key: Seq<char>,
    pub api_endpoint: Seq<char>,
}

impl View for Model {
    type V = ModelView;

    open spec fn view(&self) -> ModelView {
        ModelView {
            name: self.name@,
            display_name: self.display_name@,
            api_key: self.api_key@,
            api_endpoint: self.api_endpoint@,
        }
    }
}

} // verus!
