//! Tags seen in a repository's tag list.
use vstd::prelude::*;

verus! {

/// A tag of a tracked repo. Instants are seconds since the Unix epoch.
#[derive(Debug, Clone)]
pub struct Tag {
    pub id: u64,
    pub repo_id: u64,
    pub tag: String,
    /// Whether the tag is still in the registry's tag list.
    pub active: bool,
    pub first_seen_at: i64,
    pub last_seen_at: i64,
}

impl Tag {
    /// Whether this tag was first seen in the refresh that ran at `now`:
    /// a tag row made by that refresh carries `now` as its first sighting.
    pub fn is_new_at(&self, now: i64) -> (r: bool)
        ensures
            r == (self.first_seen_at == now),
    {
        self.first_seen_at == now
    }
}

} // verus!
