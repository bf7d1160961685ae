//! The builtin plugins: the catalog entries they register and the decisions
//! they take around their operating-system work.
pub mod exec;
pub mod filesystem;
pub mod fetch;
pub mod search;
pub mod window;
pub mod browser_info;
