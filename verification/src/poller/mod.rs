//! The poller's decisions: when a repo is due for a refresh, which tags a
//! refresh tracks and in what order it fetches their digests, how each
//! fetch outcome is counted, when paging through a tag list stops, and
//! which events a refresh emits. Talking to registries and the database
//! is left to the caller, which hands each outcome back.
pub mod classify;

use vstd::prelude::*;
use vstd::string::StringExecFns;
use crate::db::event::{EventKind, NewEvent};
use crate::db::repo::Repo;
use crate::db::tag_history::DigestChange;
use crate::db::repo_state::RepoState;
use crate::error::AppError;
use crate::poller::classify::{is_excluded, is_immutable, spec_is_excluded, spec_is_immutable};
use crate::text::{
    chars_lt, chars_of, contains_exec, contains_sub, lemma_chars_lt_transitive,
    lemma_chars_lt_trichotomy, string_of,
};
use crate::time::{timestamp_is_representable, utc_accepts_timestamp};

verus! {

/// How long a repo's registry metadata stays fresh, in seconds (6 hours).
pub const REFRESH_INTERVAL_SECS: i64 = 21600;

/// How often the scheduler looks for repos due for a refresh, in seconds.
pub const SCHEDULER_TICK_SECS: u64 = 60;

/// Tag list page size requested from the registry.
pub const TAG_PAGE_SIZE: usize = 100;

/// Hard cap on tag list pages per refresh, as a runaway guard.
pub const MAX_TAG_PAGES: usize = 200;

/// Base delay before retrying a failing repo, in seconds; doubles per
/// consecutive failure, capped at the refresh interval.
pub const BACKOFF_BASE_SECS: i64 = 60;

/// Concurrent digest fetches per repo refresh.
pub const DIGEST_CONCURRENCY: usize = 8;

/// Max immutable-tag digest backfills per refresh pass.
pub const BACKFILL_BUDGET: usize = 500;

pub open spec fn pow2(n: nat) -> nat
    decreases n,
{
    if n == 0 {
        1
    } else {
        2 * pow2((n - 1) as nat)
    }
}

/// The retry delay after `failures` consecutive failures: the base delay
/// doubled once per failure after the first (at most 16 times), capped at
/// the refresh interval.
pub open spec fn spec_backoff(failures: u32) -> int {
    let exponent: nat = if failures == 0 {
        0
    } else if failures - 1 > 16 {
        16
    } else {
        (failures - 1) as nat
    };
    let delay = BACKOFF_BASE_SECS * pow2(exponent);
    if delay < REFRESH_INTERVAL_SECS {
        delay
    } else {
        REFRESH_INTERVAL_SECS as int
    }
}

/// The retry delay after `failures` consecutive failures, in seconds.
pub fn backoff_secs(failures: u32) -> (delay: i64)
    ensures
        delay == spec_backoff(failures),
        BACKOFF_BASE_SECS <= delay <= REFRESH_INTERVAL_SECS,
{
    let exponent: u32 = if failures == 0 {
        0
    } else if failures - 1 > 16 {
        16
    } else {
        failures - 1
    };
    let mut factor: i64 = 1;
    let mut i: u32 = 0;
    while i < exponent
        invariant
            i <= exponent <= 16,
            factor == pow2(i as nat),
            factor <= 65536,
        decreases exponent - i,
    {
        proof {
            lemma_pow2_bound(i as nat);
        }
        factor = factor * 2;
        i = i + 1;
    }
    proof {
        lemma_pow2_positive(exponent as nat);
    }
    let delay = BACKOFF_BASE_SECS * factor;
    if delay < REFRESH_INTERVAL_SECS {
        delay
    } else {
        REFRESH_INTERVAL_SECS
    }
}

proof fn lemma_pow2_positive(n: nat)
    ensures
        pow2(n) >= 1,
    decreases n,
{
    if n > 0 {
        lemma_pow2_positive((n - 1) as nat);
    }
}

proof fn lemma_pow2_bound(n: nat)
    requires
        n < 16,
    ensures
        2 * pow2(n) <= 65536,
        pow2(n + 1) == 2 * pow2(n),
    decreases n,
{
    reveal_with_fuel(pow2, 17);
    assert(pow2(16) == 65536);
    lemma_pow2_monotone(n, 15);
}

proof fn lemma_pow2_monotone(a: nat, b: nat)
    requires
        a <= b,
    ensures
        pow2(a) <= pow2(b),
    decreases b,
{
    if a < b {
        lemma_pow2_monotone(a, (b - 1) as nat);
        lemma_pow2_positive((b - 1) as nat);
    }
}

/// `t` if the calendar can represent it, the due check's reference point.
pub open spec fn representable_instant(t: int) -> Option<i64> {
    if i64::MIN <= t <= i64::MAX && utc_accepts_timestamp(t as i64) {
        Some(t as i64)
    } else {
        None
    }
}

/// When a repo in `state` next becomes due: `None` when it is due at any
/// time (never refreshed, or failing with no attempt on record), else the
/// instant its last success plus the refresh interval reaches, or, while it
/// is failing, its last attempt plus the backoff.
pub open spec fn spec_due_from(state: Option<RepoState>) -> Option<int> {
    match state {
        None => None,
        Some(s) => if s.consecutive_failures > 0 {
            match s.last_attempted_at {
                Some(a) => Some(a + spec_backoff(s.consecutive_failures)),
                None => None,
            }
        } else {
            match s.last_checked_at {
                Some(c) => Some(c + REFRESH_INTERVAL_SECS),
                None => None,
            }
        },
    }
}

/// Whether a repo in `state` is due at `now`; `None` where that instant is
/// beyond the dates the calendar can represent, where the comparison
/// cannot be made.
pub open spec fn spec_is_due(state: Option<RepoState>, now: i64) -> Option<bool> {
    match spec_due_from(state) {
        None => Some(true),
        Some(t) => match representable_instant(t) {
            Some(due) => Some(now >= due),
            None => None,
        },
    }
}

/// A repo is due when it has never been successfully refreshed, or its last
/// success is older than the refresh interval. While it is failing,
/// retries are paced by exponential backoff from the last attempt instead.
/// `None` when the instant it becomes due lies beyond the dates the
/// calendar can represent.
pub fn is_due(state: Option<&RepoState>, now: i64) -> (due: Option<bool>)
    ensures
        due == spec_is_due(
            match state {
                Some(s) => Some(*s),
                None => None,
            },
            now,
        ),
{
    let state = match state {
        None => return Some(true),
        Some(s) => s,
    };
    let (base, delay) = if state.consecutive_failures > 0 {
        match state.last_attempted_at {
            Some(a) => (a, backoff_secs(state.consecutive_failures)),
            None => return Some(true),
        }
    } else {
        match state.last_checked_at {
            Some(c) => (c, REFRESH_INTERVAL_SECS),
            None => return Some(true),
        }
    };
    if base > i64::MAX - delay {
        return None;
    }
    let due_at = base + delay;
    if !timestamp_is_representable(due_at) {
        return None;
    }
    Some(now >= due_at)
}

/// Once due, a repo stays due: the answer only ever turns from "not yet" to
/// "due" as time passes.
pub proof fn lemma_due_stays_due(state: Option<RepoState>, now: i64, later: i64)
    requires
        spec_is_due(state, now) == Some(true),
        now <= later,
    ensures
        spec_is_due(state, later) == Some(true),
{
}

/// After a successful refresh at `at`, a repo is due exactly when the
/// refresh interval has passed since `at`.
pub proof fn lemma_due_after_success(repo_id: u64, at: i64, now: i64)
    requires
        at + REFRESH_INTERVAL_SECS <= i64::MAX,
        utc_accepts_timestamp((at + REFRESH_INTERVAL_SECS) as i64),
    ensures
        spec_is_due(
            Some(
                RepoState {
                    repo_id,
                    last_checked_at: Some(at),
                    last_attempted_at: Some(at),
                    last_error: None,
                    consecutive_failures: 0,
                },
            ),
            now,
        ) == Some(now >= at + REFRESH_INTERVAL_SECS),
{
}

/// While a repo is failing, its retry is paced from its last attempt by the
/// backoff for its failure streak, whatever its last success was.
pub proof fn lemma_failing_repo_waits_for_backoff(s: RepoState, now: i64)
    requires
        s.consecutive_failures > 0,
        s.last_attempted_at is Some,
        representable_instant(s.last_attempted_at->0 + spec_backoff(s.consecutive_failures)) is Some,
    ensures
        spec_is_due(Some(s), now) == Some(
            now >= s.last_attempted_at->0 + spec_backoff(s.consecutive_failures),
        ),
{
}

/// The backoff never shrinks as failures accumulate, and stays between the
/// base delay and the refresh interval.
pub proof fn lemma_backoff_monotone(f: u32, g: u32)
    requires
        f <= g,
    ensures
        spec_backoff(f) <= spec_backoff(g),
        BACKOFF_BASE_SECS <= spec_backoff(f) <= REFRESH_INTERVAL_SECS,
{
    let ef: nat = if f == 0 {
        0
    } else if f - 1 > 16 {
        16
    } else {
        (f - 1) as nat
    };
    let eg: nat = if g == 0 {
        0
    } else if g - 1 > 16 {
        16
    } else {
        (g - 1) as nat
    };
    lemma_pow2_monotone(ef, eg);
    lemma_pow2_positive(ef);
}

/// Each further failure doubles the retry delay, until it reaches the
/// refresh interval, where it stays.
pub proof fn lemma_backoff_doubles(f: u32)
    requires
        1 <= f < u32::MAX,
    ensures
        spec_backoff((f + 1) as u32) == if 2 * spec_backoff(f) < REFRESH_INTERVAL_SECS {
            2 * spec_backoff(f)
        } else {
            REFRESH_INTERVAL_SECS as int
        },
{
    reveal_with_fuel(pow2, 17);
    assert(pow2(16) == 65536);
    if f <= 16 {
        lemma_pow2_bound((f - 1) as nat);
    } else {
        assert(BACKOFF_BASE_SECS * pow2(16) >= REFRESH_INTERVAL_SECS);
    }
}

// ---------------------------------------------------------------------
// One refresh
// ---------------------------------------------------------------------

/// Whether a refresh of a repo in `state` emits events: a repo's first
/// successful refresh is a baseline and emits none, or a newly registered
/// image would announce every historical tag.
pub fn emits_events(state: Option<&RepoState>) -> (emit: bool)
    ensures
        emit == match state {
            Some(s) => s.last_checked_at is Some,
            None => false,
        },
{
    match state {
        Some(s) => s.last_checked_at.is_some(),
        None => false,
    }
}

pub open spec fn string_seq_views(v: Seq<String>) -> Seq<Seq<char>> {
    v.map_values(|s: String| s@)
}

pub open spec fn tracked_views(all: Seq<Seq<char>>) -> Seq<Seq<char>> {
    all.filter(|t: Seq<char>| !spec_is_excluded(t))
}

/// The tags a refresh tracks, in the order listed, and how many it left
/// out as excluded.
pub fn tracked_tags(all: Vec<String>) -> (r: (Vec<String>, usize))
    ensures
        string_seq_views(r.0@) == tracked_views(string_seq_views(all@)),
        r.1 == all@.len() - r.0@.len(),
{
    let ghost views = string_seq_views(all@);
    let ghost total = all@.len();
    let n = all.len();
    let mut kept: Vec<String> = Vec::new();
    let mut excluded: usize = 0;
    for tag in it: all.into_iter()
        invariant
            string_seq_views(it.seq()) == views,
            it.seq().len() == total,
            total == n,
            string_seq_views(kept@) == tracked_views(views.take(it.index())),
            excluded + kept@.len() == it.index(),
    {
        let ghost i = it.index();
        proof {
            assert(views.take(i + 1) =~= views.take(i).push(views[i]));
            assert(views[i] == tag@);
            assert(i < total);
            views.take(i).lemma_filter_push(views[i], |t: Seq<char>| !spec_is_excluded(t));
        }
        if is_excluded(tag.as_str()) {
            excluded = excluded + 1;
        } else {
            kept.push(tag);
        }
    }
    proof {
        assert(views.take(total as int) =~= views);
    }
    (kept, excluded)
}

/// What one refresh did, for the log.
#[derive(Debug, Clone)]
pub struct RefreshSummary {
    pub tags_excluded: usize,
    pub tags_seen: usize,
    pub tags_new: usize,
    pub digests_fetched: usize,
    pub digests_failed: usize,
    pub digests_deferred: usize,
    pub tags_deactivated: usize,
    pub rate_limited: bool,
    pub events: usize,
}

/// How one digest fetch went.
#[derive(Debug, Clone, Copy, PartialEq, Eq, Structural)]
pub enum FetchOutcome {
    Fetched,
    RateLimited,
    Failed,
}

pub open spec fn outcome_name(o: FetchOutcome) -> Seq<char> {
    match o {
        FetchOutcome::Fetched => "ok"@,
        FetchOutcome::RateLimited => "rate_limited"@,
        FetchOutcome::Failed => "error"@,
    }
}

impl FetchOutcome {
    /// The outcome label registry calls are counted under.
    pub fn label(self) -> (s: &'static str)
        ensures
            s@ == outcome_name(self),
    {
        match self {
            FetchOutcome::Fetched => "ok",
            FetchOutcome::RateLimited => "rate_limited",
            FetchOutcome::Failed => "error",
        }
    }
}

/// `s` in lower case, as std's `str::to_lowercase` maps it (by Unicode's
/// case tables, independent of locale).
pub uninterp spec fn spec_lowercase(s: Seq<char>) -> Seq<char>;

/// std's `str::to_lowercase`; its result is named, not spelled out.
#[verifier::external_body]
fn to_lowercase(s: &str) -> (r: String)
    ensures
        r@ == spec_lowercase(s@),
{
    s.to_lowercase()
}

/// Whether a lower-cased registry error message reports a rate limit: it
/// mentions 429, `toomanyrequests`, `too many requests` or `retry-after`.
pub open spec fn spec_mentions_rate_limit(m: Seq<char>) -> bool {
    ||| contains_sub(m, "429"@)
    ||| contains_sub(m, "toomanyrequests"@)
    ||| contains_sub(m, "too many requests"@)
    ||| contains_sub(m, "retry-after"@)
}

/// Whether a registry error message (as rendered) reports a rate limit:
/// lower-cased, it mentions one of the rate-limit markers.
pub open spec fn spec_is_rate_limit(message: Seq<char>) -> bool {
    spec_mentions_rate_limit(spec_lowercase(message))
}

/// Whether a lower-cased error message mentions one of the rate-limit
/// markers.
pub fn mentions_rate_limit(lower: &str) -> (r: bool)
    ensures
        r == spec_mentions_rate_limit(lower@),
{
    let m = chars_of(lower);
    contains_exec(&m, &chars_of("429")) || contains_exec(&m, &chars_of("toomanyrequests"))
        || contains_exec(&m, &chars_of("too many requests")) || contains_exec(
        &m,
        &chars_of("retry-after"),
    )
}

/// Whether a registry error is a rate-limit response. The registry client
/// does not expose the status code structurally for API-error envelopes,
/// so this matches on the rendered message.
pub fn is_rate_limit(message: &str) -> (r: bool)
    ensures
        r == spec_is_rate_limit(message@),
{
    mentions_rate_limit(to_lowercase(message).as_str())
}

/// The outcome of a digest fetch that succeeded (`ok`) or failed with the
/// rendered error `message`.
pub fn fetch_outcome(ok: bool, message: &str) -> (o: FetchOutcome)
    ensures
        o == if ok {
            FetchOutcome::Fetched
        } else if spec_is_rate_limit(message@) {
            FetchOutcome::RateLimited
        } else {
            FetchOutcome::Failed
        },
{
    if ok {
        FetchOutcome::Fetched
    } else if is_rate_limit(message) {
        FetchOutcome::RateLimited
    } else {
        FetchOutcome::Failed
    }
}

impl RefreshSummary {
    /// A summary of a refresh that tracks `tags_seen` tags and left
    /// `tags_excluded` out.
    pub fn new(tags_excluded: usize, tags_seen: usize) -> (s: RefreshSummary)
        ensures
            s.tags_excluded == tags_excluded,
            s.tags_seen == tags_seen,
            s.tags_new == 0,
            s.digests_fetched == 0,
            s.digests_failed == 0,
            s.digests_deferred == 0,
            s.tags_deactivated == 0,
            !s.rate_limited,
            s.events == 0,
    {
        RefreshSummary {
            tags_excluded,
            tags_seen,
            tags_new: 0,
            digests_fetched: 0,
            digests_failed: 0,
            digests_deferred: 0,
            tags_deactivated: 0,
            rate_limited: false,
            events: 0,
        }
    }

    /// Count a tag seen for the first time.
    pub fn note_new_tag(&mut self)
        requires
            old(self).tags_new < usize::MAX,
        ensures
            *final(self) == (RefreshSummary { tags_new: (old(self).tags_new + 1) as usize, ..*old(self) }),
    {
        self.tags_new = self.tags_new + 1;
    }

    /// Whether an event is to be recorded, counting it when it is: only
    /// refreshes that emit events record them.
    pub fn note_event(&mut self, emit_events: bool) -> (record: bool)
        requires
            old(self).events < usize::MAX,
        ensures
            record == emit_events,
            *final(self) == (RefreshSummary {
                events: if emit_events {
                    (old(self).events + 1) as usize
                } else {
                    old(self).events
                },
                ..*old(self)
            }),
    {
        if emit_events {
            self.events = self.events + 1;
        }
        emit_events
    }

    /// Count the tags a refresh found gone.
    pub fn note_deactivated(&mut self, removed: usize)
        ensures
            *final(self) == (RefreshSummary { tags_deactivated: removed, ..*old(self) }),
    {
        self.tags_deactivated = removed;
    }

    /// Count a digest fetch and say whether the pass goes on: a fetched
    /// digest and a failed fetch are counted and the pass continues (a
    /// single tag failing does not fail the refresh); a rate limit stops
    /// the rest of this pass's fetches.
    pub fn note_fetch(&mut self, outcome: FetchOutcome) -> (go_on: bool)
        requires
            old(self).digests_fetched < usize::MAX,
            old(self).digests_failed < usize::MAX,
        ensures
            go_on == (outcome != FetchOutcome::RateLimited),
            *final(self) == match outcome {
                FetchOutcome::Fetched => RefreshSummary {
                    digests_fetched: (old(self).digests_fetched + 1) as usize,
                    ..*old(self)
                },
                FetchOutcome::RateLimited => RefreshSummary { rate_limited: true, ..*old(self) },
                FetchOutcome::Failed => RefreshSummary {
                    digests_failed: (old(self).digests_failed + 1) as usize,
                    ..*old(self)
                },
            },
    {
        match outcome {
            FetchOutcome::Fetched => {
                self.digests_fetched = self.digests_fetched + 1;
                true
            },
            FetchOutcome::RateLimited => {
                self.rate_limited = true;
                false
            },
            FetchOutcome::Failed => {
                self.digests_failed = self.digests_failed + 1;
                true
            },
        }
    }
}

/// The event for a tag seen for the first time.
pub fn added_event(repo_id: u64, tag: String) -> (e: NewEvent)
    ensures
        e == (NewEvent { repo_id, tag, kind: EventKind::TagAdded, digest: None, previous_digest: None }),
{
    NewEvent { repo_id, tag, kind: EventKind::TagAdded, digest: None, previous_digest: None }
}

/// The event a fetched digest makes, given what recording it changed: a
/// move from the digest on record is an event carrying both digests; a
/// first digest, or the same one again, is none (an added tag's first
/// digest is history, not a move).
pub fn digest_event(repo_id: u64, tag: String, digest: String, change: DigestChange) -> (e: Option<NewEvent>)
    ensures
        e == match change {
            DigestChange::Moved { from } => Some(
                NewEvent {
                    repo_id,
                    tag,
                    kind: EventKind::TagMoved,
                    digest: Some(digest),
                    previous_digest: Some(from),
                },
            ),
            _ => None,
        },
{
    match change {
        DigestChange::Moved { from } => Some(
            NewEvent {
                repo_id,
                tag,
                kind: EventKind::TagMoved,
                digest: Some(digest),
                previous_digest: Some(from),
            },
        ),
        _ => None,
    }
}

/// The events for the tags a refresh found gone, one per tag in order.
pub fn removed_events(repo_id: u64, removed: Vec<String>) -> (events: Vec<NewEvent>)
    ensures
        events@.len() == removed@.len(),
        forall|i: int|
            0 <= i < removed@.len() ==> #[trigger] events@[i] == (NewEvent {
                repo_id,
                tag: removed@[i],
                kind: EventKind::TagRemoved,
                digest: None,
                previous_digest: None,
            }),
{
    let ghost all = removed@;
    let mut events: Vec<NewEvent> = Vec::new();
    for tag in it: removed.into_iter()
        invariant
            it.seq() == all,
            events@.len() == it.index(),
            forall|i: int|
                0 <= i < it.index() ==> #[trigger] events@[i] == (NewEvent {
                    repo_id,
                    tag: all[i],
                    kind: EventKind::TagRemoved,
                    digest: None,
                    previous_digest: None,
                }),
    {
        events.push(NewEvent { repo_id, tag, kind: EventKind::TagRemoved, digest: None, previous_digest: None });
    }
    events
}

/// Which digests a refresh fetches. Floating tags are re-fetched every
/// refresh; immutable tags only need their digest resolved once, and the
/// backlog of never-resolved ones is drained on a per-pass budget, after
/// the floating ones.
#[derive(Debug, Clone)]
pub struct FetchPlan {
    floating: Vec<(u64, String)>,
    backfill: Vec<(u64, String)>,
}

impl FetchPlan {
    pub closed spec fn floating_view(&self) -> Seq<(u64, String)> {
        self.floating@
    }

    pub closed spec fn backfill_view(&self) -> Seq<(u64, String)> {
        self.backfill@
    }

    pub fn new() -> (p: FetchPlan)
        ensures
            p.floating_view().len() == 0,
            p.backfill_view().len() == 0,
    {
        FetchPlan { floating: Vec::new(), backfill: Vec::new() }
    }

    /// Plan the tag `tag` (row `tag_id`): a floating tag is fetched; an
    /// immutable one only while it has no digest on record (`has_digest`,
    /// which is not consulted for floating tags).
    pub fn add(&mut self, tag_id: u64, tag: String, has_digest: bool)
        ensures
            spec_is_immutable(tag@) ==> final(self).floating_view() == old(self).floating_view(),
            spec_is_immutable(tag@) ==> final(self).backfill_view() == if has_digest {
                old(self).backfill_view()
            } else {
                old(self).backfill_view().push((tag_id, tag))
            },
            !spec_is_immutable(tag@) ==> final(self).floating_view() == old(
                self,
            ).floating_view().push((tag_id, tag)),
            !spec_is_immutable(tag@) ==> final(self).backfill_view() == old(self).backfill_view(),
    {
        if is_immutable(tag.as_str()) {
            if !has_digest {
                self.backfill.push((tag_id, tag));
            }
        } else {
            self.floating.push((tag_id, tag));
        }
    }

    /// The fetch order (every floating tag, then at most the backfill
    /// budget of immutable ones, each in the order planned) and how many
    /// backfills are deferred to later passes.
    pub fn finish(self) -> (r: (Vec<(u64, String)>, usize))
        ensures
            r.0@ == self.floating_view() + self.backfill_view().take(
                if self.backfill_view().len() <= BACKFILL_BUDGET {
                    self.backfill_view().len() as int
                } else {
                    BACKFILL_BUDGET as int
                },
            ),
            r.1 == if self.backfill_view().len() <= BACKFILL_BUDGET {
                0
            } else {
                self.backfill_view().len() - BACKFILL_BUDGET
            },
    {
        let ghost floating = self.floating@;
        let ghost backfill = self.backfill@;
        let deferred = if self.backfill.len() > BACKFILL_BUDGET {
            self.backfill.len() - BACKFILL_BUDGET
        } else {
            0
        };
        let mut order = self.floating;
        let budget = if self.backfill.len() > BACKFILL_BUDGET {
            BACKFILL_BUDGET
        } else {
            self.backfill.len()
        };
        let n = self.backfill.len();
        let mut i: usize = 0;
        for item in it: self.backfill.into_iter()
            invariant
                it.seq() == backfill,
                backfill.len() == n,
                i == it.index(),
                budget <= backfill.len(),
                it.index() <= budget ==> order@ == floating + backfill.take(it.index()),
                it.index() > budget ==> order@ == floating + backfill.take(budget as int),
        {
            let ghost k = it.index();
            assert(k < backfill.len());
            if i < budget {
                order.push(item);
                proof {
                    assert(backfill.take(k + 1) =~= backfill.take(k).push(backfill[k]));
                }
            }
            i = i + 1;
        }
        proof {
            if backfill.len() == budget {
                assert(backfill.take(budget as int) =~= backfill.take(backfill.len() as int));
            }
        }
        (order, deferred)
    }
}

/// Whether paging through a tag list goes on after a page of `page_len`
/// tags whose last tag is `next_last`, when the previous page ended at
/// `last`: it stops at a short page, an empty one, or a page that makes no
/// forward progress (a registry that ignores the `last` parameter would
/// otherwise be paged forever).
pub fn continue_paging(page_len: usize, next_last: &Option<String>, last: &Option<String>) -> (go_on:
    bool)
    ensures
        go_on == !(page_len < TAG_PAGE_SIZE || next_last is None || (next_last matches Some(n)
            && last matches Some(l) && n@ == l@)),
{
    if page_len < TAG_PAGE_SIZE {
        return false;
    }
    match (next_last, last) {
        (None, _) => false,
        (Some(n), Some(l)) => !crate::text::vec_eq(&chars_of(n.as_str()), &chars_of(l.as_str())),
        (Some(_), None) => true,
    }
}

/// std's `slice::sort` on strings: it permutes the strings into ascending
/// order, which for strings is byte-wise lexicographic, the same as
/// lexicographic by code point.
#[verifier::external_body]
fn sort_strings(v: &mut Vec<String>)
    ensures
        final(v)@.to_multiset() == old(v)@.to_multiset(),
        forall|i: int, j: int|
            0 <= i < j < final(v)@.len() ==> !chars_lt(final(v)@[j]@, final(v)@[i]@),
{
    v.sort()
}

/// The tags of all pages as a set: sorted, each once.
pub fn sorted_unique_tags(tags: Vec<String>) -> (r: Vec<String>)
    ensures
        forall|i: int, j: int| 0 <= i < j < r@.len() ==> chars_lt(r@[i]@, r@[j]@),
        forall|t: String| tags@.contains(t) ==> exists|i: int| 0 <= i < r@.len() && r@[i]@ == t@,
        forall|i: int| 0 <= i < r@.len() ==> tags@.contains(#[trigger] r@[i]),
{
    broadcast use vstd::seq_lib::group_to_multiset_ensures;

    let mut sorted = tags;
    sort_strings(&mut sorted);
    let ghost s = sorted@;
    assert forall|t: String| tags@.contains(t) <==> s.contains(t) by {
        assert(tags@.to_multiset().count(t) == s.to_multiset().count(t));
    }
    let mut out: Vec<String> = Vec::new();
    // where each scanned tag landed in `out`, and where each kept one came from
    let ghost mut landed: Seq<int> = Seq::empty();
    let ghost mut origin: Seq<int> = Seq::empty();
    let mut i: usize = 0;
    while i < sorted.len()
        invariant
            i <= sorted@.len(),
            s == sorted@,
            forall|a: int, b: int|
                0 <= a < b < s.len() ==> !chars_lt(#[trigger] s[b]@, #[trigger] s[a]@),
            forall|a: int, b: int| 0 <= a < b < out@.len() ==> chars_lt(out@[a]@, out@[b]@),
            origin.len() == out@.len(),
            forall|a: int|
                0 <= a < out@.len() ==> 0 <= #[trigger] origin[a] < s.len() && out@[a] == s[origin[a]],
            landed.len() == i,
            forall|k: int|
                0 <= k < i ==> 0 <= #[trigger] landed[k] < out@.len() && out@[landed[k]]@ == s[k]@,
            i > 0 ==> out@.len() > 0 && out@.last()@ == s[i - 1]@,
            i == 0 ==> out@.len() == 0,
        decreases sorted.len() - i,
    {
        let t = &sorted[i];
        let fresh = if out.len() == 0 {
            true
        } else {
            !crate::text::vec_eq(&chars_of(out[out.len() - 1].as_str()), &chars_of(t.as_str()))
        };
        if fresh {
            proof {
                if i > 0 {
                    let last = out@.last()@;
                    assert(!chars_lt(s[i as int]@, s[i - 1]@));
                    lemma_chars_lt_trichotomy(last, t@);
                    assert forall|a: int| 0 <= a < out@.len() implies chars_lt(out@[a]@, t@) by {
                        if a < out@.len() - 1 {
                            lemma_chars_lt_transitive(out@[a]@, last, t@);
                        }
                    }
                }
                origin = origin.push(i as int);
            }
            out.push(t.clone());
        } else {
            proof {
                assert(out@.last()@ == t@);
            }
        }
        proof {
            landed = landed.push(out@.len() - 1);
        }
        i = i + 1;
    }
    assert forall|t: String| tags@.contains(t) implies exists|a: int| 0 <= a < out@.len() && out@[a]@ == t@ by {
        assert(s.contains(t));
        let k = choose|k: int| 0 <= k < s.len() && s[k] == t;
        assert(out@[landed[k]]@ == s[k]@);
    }
    assert forall|a: int| 0 <= a < out@.len() implies tags@.contains(#[trigger] out@[a]) by {
        assert(s[origin[a]] == out@[a]);
        assert(s.contains(out@[a]));
    }
    out
}

/// The image reference type of the registry client.
#[verifier::external_type_specification]
#[verifier::external_body]
pub struct ExReference(oci_client::Reference);

/// What the registry client's reference parser makes of `s`: the
/// registry and repository it names, or the rendered parse error.
pub uninterp spec fn reference_parse(s: Seq<char>) -> Result<(Seq<char>, Seq<char>), Seq<char>>;

/// `oci_client::Reference::from_str`: the reference `s` names, with its
/// registry and repository as strings, or the rendered parse error. What
/// it makes of each string is named, not spelled out.
#[verifier::external_body]
fn parse_reference(s: &str) -> (r: Result<(oci_client::Reference, String, String), String>)
    ensures
        match r {
            Ok((_, registry, repository)) => reference_parse(s@) == Ok::<(Seq<char>, Seq<char>), Seq<char>>((registry@, repository@)),
            Err(message) => reference_parse(s@) == Err::<(Seq<char>, Seq<char>), Seq<char>>(message@),
        },
{
    match s.parse::<oci_client::Reference>() {
        Ok(reference) => {
            let registry = reference.registry().to_string();
            let repository = reference.repository().to_string();
            Ok((reference, registry, repository))
        },
        Err(e) => Err(e.to_string()),
    }
}

/// An image reference as the registry client parsed it, with the registry
/// and repository it names.
pub struct ImageReference {
    pub registry: String,
    pub repository: String,
    /// The client's own reference, for its calls.
    pub reference: oci_client::Reference,
}

/// The image reference a repo's tags are listed under: `registry/name`.
pub open spec fn reference_text(repo: Repo) -> Seq<char> {
    repo.registry@ + "/"@ + repo.name@
}

/// The registry reference of `repo`, or a parse error (with the parser's
/// message) when the registry client does not accept `registry/name` as
/// one.
pub fn repo_reference(repo: &Repo) -> (r: Result<ImageReference, AppError>)
    ensures
        match reference_parse(reference_text(*repo)) {
            Ok((registry, repository)) => r matches Ok(i) && i.registry@ == registry
                && i.repository@ == repository,
            Err(message) => r matches Err(e) && e is Parse && e->Parse_0@ == message,
        },
{
    let mut text = String::from_str(repo.registry.as_str());
    text.append("/");
    text.append(repo.name.as_str());
    match parse_reference(text.as_str()) {
        Ok((reference, registry, repository)) => Ok(ImageReference { registry, repository, reference }),
        Err(message) => Err(AppError::Parse(message)),
    }
}

} // verus!
