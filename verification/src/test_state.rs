//! The database location that tests connect to.
use vstd::prelude::*;

verus! {

/// Where the tests' database lives.
pub struct TestState {
    db_url: String,
}

/// The connection string of a shared in-memory SQLite database.
pub open spec fn in_memory_db_url() -> Seq<char> {
    "sqlite::memory:?cache=shared"@
}

impl TestState {
    /// The connection string this state points at.
    pub closed spec fn url(&self) -> Seq<char> {
        self.db_url@
    }

    /// A state pointing at a shared in-memory SQLite database.
    pub fn new_in_memory() -> (r: TestState)
        ensures
            r.url() == in_memory_db_url(),
    {
        TestState { db_url: String::from_str("sqlite::memory:?cache=shared") }
    }

    /// The connection string to open.
    pub fn db_url(&self) -> (r: &str)
        ensures
            r@ == self.url(),
    {
        self.db_url.as_str()
    }
}

} // verus!
