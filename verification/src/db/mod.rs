pub mod event;
pub mod repo;
pub mod repo_state;
pub mod tag;
pub mod tag_history;
pub mod version_exclusion;

use vstd::prelude::*;

verus! {

/// The id of a row whose existence a query confirmed.
pub struct ExistenceResult {
    id: u64,
}

impl ExistenceResult {
    pub fn new(id: u64) -> (r: Self)
        ensures
            r.id() == id,
    {
        ExistenceResult { id }
    }

    pub closed spec fn id(&self) -> u64 {
        self.id
    }

    /// The id the result refers to.
    pub fn get(&self) -> (id: u64)
        ensures
            id == self.id(),
    {
        self.id
    }
}

/// What every pooled SQLite connection is set up with when it is handed
/// out: foreign keys enforced.
#[derive(Debug)]
pub struct SqliteConnectionCustomizer;

impl SqliteConnectionCustomizer {
    /// The pragma applied on acquiring a connection, as (name, value).
    pub fn pragma(&self) -> (p: (&'static str, &'static str))
        ensures
            p.0@ == "foreign_keys"@,
            p.1@ == "ON"@,
    {
        ("foreign_keys", "ON")
    }
}

} // verus!
