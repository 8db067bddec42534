//! Refresh bookkeeping per repo: when it last succeeded, when it was last
//! tried, and how it has been failing.
use vstd::prelude::*;
use crate::time::{timestamp, utc_accepts_timestamp};

verus! {

/// Instants are seconds since the Unix epoch.
#[derive(Debug, Clone)]
pub struct RepoState {
    pub repo_id: u64,
    pub last_checked_at: Option<i64>,
    pub last_attempted_at: Option<i64>,
    pub last_error: Option<String>,
    pub consecutive_failures: u32,
}

pub open spec fn representable(value: Option<i64>) -> Option<i64> {
    match value {
        Some(secs) => if utc_accepts_timestamp(secs) {
            Some(secs)
        } else {
            None
        },
        None => None,
    }
}

impl RepoState {
    /// The state as stored: instants the calendar cannot represent read as
    /// absent.
    pub fn from_columns(
        repo_id: u64,
        last_checked_at: Option<i64>,
        last_attempted_at: Option<i64>,
        last_error: Option<String>,
        consecutive_failures: u32,
    ) -> (s: RepoState)
        ensures
            s.repo_id == repo_id,
            s.last_checked_at == representable(last_checked_at),
            s.last_attempted_at == representable(last_attempted_at),
            s.last_error == last_error,
            s.consecutive_failures == consecutive_failures,
    {
        RepoState {
            repo_id,
            last_checked_at: timestamp(last_checked_at),
            last_attempted_at: timestamp(last_attempted_at),
            last_error,
            consecutive_failures,
        }
    }

    /// The state after a successful refresh that started at `at`: checked
    /// and attempted then, no error, no failures.
    pub fn after_success(repo_id: u64, at: i64) -> (s: RepoState)
        ensures
            s.repo_id == repo_id,
            s.last_checked_at == Some(at),
            s.last_attempted_at == Some(at),
            s.last_error is None,
            s.consecutive_failures == 0,
    {
        RepoState {
            repo_id,
            last_checked_at: Some(at),
            last_attempted_at: Some(at),
            last_error: None,
            consecutive_failures: 0,
        }
    }

    /// The state after a refresh that started at `at` failed with `error`:
    /// the last success is kept, the attempt and the error are recorded,
    /// and the failure streak grows by one.
    pub fn after_failure(previous: Option<&RepoState>, repo_id: u64, at: i64, error: &str) -> (s:
        RepoState)
        requires
            previous matches Some(p) ==> p.consecutive_failures < u32::MAX,
        ensures
            s.repo_id == repo_id,
            s.last_checked_at == match previous {
                Some(p) => p.last_checked_at,
                None => None,
            },
            s.last_attempted_at == Some(at),
            s.last_error matches Some(e) && e@ == error@,
            s.consecutive_failures == match previous {
                Some(p) => p.consecutive_failures + 1,
                None => 1,
            },
    {
        let (checked, failures) = match previous {
            Some(p) => (p.last_checked_at, p.consecutive_failures + 1),
            None => (None, 1),
        };
        RepoState {
            repo_id,
            last_checked_at: checked,
            last_attempted_at: Some(at),
            last_error: Some(crate::text::string_of(&crate::text::chars_of(error))),
            consecutive_failures: failures,
        }
    }
}

} // verus!
