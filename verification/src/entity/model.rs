//! The `model` table.
use crate::text::opt_str;
use vstd::prelude::*;

verus! {

/// A language model row.
#[derive(Clone, Debug, PartialEq, Eq)]
pub struct Model {
    pub name: String,
    pub display_name: String,
    pub description: Option<String>,
    pub provider_name: String,
}

/// The value of [`Model`], with strings as character sequences.
#[verifier::ext_equal]
pub struct ModelView {
    pub name: Seq<char>,
    pub display_name: Seq<char>,
    pub description: Option<Seq<char>>,
    pub provider_name: Seq<char>,
}

impl View for Model {
    type V = ModelView;

    open spec fn view(&self) -> ModelView {
        ModelView {
            name: self.name@,
            display_name: self.display_name@,
            description: opt_str(self.description),
            provider_name: self.provider_name@,
        }
    }
}

} // verus!
