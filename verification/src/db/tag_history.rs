//! The digests a tag has pointed at, one row per distinct digest with the
//! window over which it was observed.
use vstd::prelude::*;
use crate::text::{chars_of, vec_eq};

verus! {

/// One digest a tag pointed at, from its first to its last observation
/// (seconds since the Unix epoch).
#[derive(Debug, Clone)]
pub struct TagHistory {
    pub tag_id: u64,
    pub digest: String,
    pub first_seen_at: i64,
    pub last_seen_at: i64,
}

/// What an observed digest means for the tag.
#[derive(Debug, Clone)]
pub enum DigestChange {
    /// The tag had no digest on record yet.
    First,
    /// The tag still points at the digest on record.
    Same,
    /// The tag moved away from the digest `from`.
    Moved { from: String },
}

/// How the history is written for an observation.
#[derive(Debug, Clone, Copy, PartialEq, Eq)]
pub enum HistoryWrite {
    /// Extend the latest row (the one first seen at `first_seen_at`) to the
    /// observation's time.
    Extend { first_seen_at: i64 },
    /// Append a new row for the observed digest, first and last seen now.
    Append,
}

impl TagHistory {
    /// How to record an observation of `digest`, given the tag's latest
    /// history row: the same digest extends that row, anything else
    /// (including a first observation) appends a new one.
    pub fn observe(latest: Option<&TagHistory>, digest: &str) -> (r: (HistoryWrite, DigestChange))
        ensures
            match latest {
                Some(l) => if l.digest@ == digest@ {
                    r.0 == (HistoryWrite::Extend { first_seen_at: l.first_seen_at }) && r.1 is Same
                } else {
                    r.0 == HistoryWrite::Append && (r.1 matches DigestChange::Moved { from } && from@
                        == l.digest@)
                },
                None => r.0 == HistoryWrite::Append && r.1 is First,
            },
    {
        match latest {
            Some(l) => {
                if vec_eq(&chars_of(l.digest.as_str()), &chars_of(digest)) {
                    (HistoryWrite::Extend { first_seen_at: l.first_seen_at }, DigestChange::Same)
                } else {
                    (HistoryWrite::Append, DigestChange::Moved { from: l.digest.clone() })
                }
            },
            None => (HistoryWrite::Append, DigestChange::First),
        }
    }
}

} // verus!
