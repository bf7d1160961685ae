//! The `ext_plugin_package` table.
use vstd::prelude::*;

verus! {

/// A row tracking an externally installed plugin package.
#[derive(Clone, Debug, PartialEq, Eq)]
pub struct Model {
    pub plugin_package_id: String,
    pub install_dir: String,
    pub missing: bool,
}

/// The value of [`Model`], with strings as character sequences.
#[verifier::ext_equal]
pub struct ModelView {
    pub plugin_package_id: Seq<char>,
    pub install_dir: Seq<char>,
    pub missing: bool,
}

impl View for Model {
    type V = ModelView;

    open spec fn view(&self) -> ModelView {
        ModelView {
            plugin_package_id: self.plugin_package_id@,
            install_dir: self.install_dir@,
            missing: self.missing,
        }
    }
}

} // verus!
