//! The `plugin_function` table.
use crate::text::{clone_opt_string, opt_str};
use vstd::prelude::*;

verus! {

/// A plugin function row.
#[derive(Clone, Debug, PartialEq, Eq)]
pub struct Model {
    pub function_id: String,
    pub package_id: String,
    pub function_name: String,
    pub description: Option<String>,
    pub arguments: Option<String>,
    pub returns: Option<String>,
}

/// The value of [`Model`], with strings as character sequences.
#[verifier::ext_equal]
pub struct ModelView {
    pub function_id: Seq<char>,
    pub package_id: Seq<char>,
    pub function_name: Seq<char>,
    pub description: Option<Seq<char>>,
    pub arguments: Option<Seq<char>>,
    pub returns: Option<Seq<char>>,
}

impl View for Model {
    type V = ModelView;

    open spec fn view(&self) -> ModelView {
        ModelView {
            function_id: self.function_id@,
            package_id: self.package_id@,
            function_name: self.function_name@,
            description: opt_str(self.description),
            arguments: opt_str(self.arguments),
            returns: opt_str(self.returns),
        }
    }
}

impl Model {
    /// A copy of this row.
    pub fn duplicate(&self) -> (r: Model)
        ensures
            r@ == self@,
    {
        Model {
            function_id: self.function_id.clone(),
            package_id: self.package_id.clone(),
            function_name: self.function_name.clone(),
            description: clone_opt_string(&self.description),
            arguments: clone_opt_string(&self.arguments),
            returns: clone_opt_string(&self.returns),
        }
    }
}

} // verus!
