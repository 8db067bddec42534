//! The event feed: one row per change the poller observes, in order.
//!
//! Consumers keep the last id they handled as a cursor. A repo's first
//! successful refresh emits nothing; from the second refresh on, every new
//! tag, every floating tag that moves to a new digest, and every tag that
//! disappears is one event.
use vstd::prelude::*;
use std::collections::HashMap;
use crate::db::version_exclusion::{spec_excludes, ExclusionSet};
use crate::poller::classify::{opt_view, parse_version, spec_parse_version};
use crate::text::{chars_of, vec_eq};
use crate::time::{spec_timestamp_or_epoch, timestamp_or_epoch};

verus! {

broadcast use vstd::std_specs::hash::group_hash_axioms;

#[derive(Debug, Clone, Copy, PartialEq, Eq, Structural)]
pub enum EventKind {
    /// A tag appeared in the registry's tag list.
    TagAdded,
    /// A tag that was already known now points at a different digest.
    TagMoved,
    /// A tag is no longer in the registry's tag list.
    TagRemoved,
}

/// The name a kind is stored and served under.
pub open spec fn kind_name(kind: EventKind) -> Seq<char> {
    match kind {
        EventKind::TagAdded => "tag_added"@,
        EventKind::TagMoved => "tag_moved"@,
        EventKind::TagRemoved => "tag_removed"@,
    }
}

/// The kind a stored name stands for.
pub open spec fn kind_of_name(name: Seq<char>) -> Option<EventKind> {
    if name == "tag_added"@ {
        Some(EventKind::TagAdded)
    } else if name == "tag_moved"@ {
        Some(EventKind::TagMoved)
    } else if name == "tag_removed"@ {
        Some(EventKind::TagRemoved)
    } else {
        None
    }
}

impl EventKind {
    pub fn as_str(self) -> (s: &'static str)
        ensures
            s@ == kind_name(self),
    {
        match self {
            EventKind::TagAdded => "tag_added",
            EventKind::TagMoved => "tag_moved",
            EventKind::TagRemoved => "tag_removed",
        }
    }

    pub fn parse(s: &str) -> (k: Option<Self>)
        ensures
            k == kind_of_name(s@),
    {
        let v = chars_of(s);
        if vec_eq(&v, &chars_of("tag_added")) {
            Some(EventKind::TagAdded)
        } else if vec_eq(&v, &chars_of("tag_moved")) {
            Some(EventKind::TagMoved)
        } else if vec_eq(&v, &chars_of("tag_removed")) {
            Some(EventKind::TagRemoved)
        } else {
            None
        }
    }
}

/// Reading back the name a kind is stored under gives the kind again, so
/// every stored event keeps its kind.
pub proof fn lemma_kind_name_round_trip(kind: EventKind)
    ensures
        kind_of_name(kind_name(kind)) == Some(kind),
{
    reveal_strlit("tag_added");
    reveal_strlit("tag_moved");
    reveal_strlit("tag_removed");
    assert("tag_added"@[4] != "tag_moved"@[4]);
    assert("tag_added"@.len() != "tag_removed"@.len());
    assert("tag_moved"@.len() != "tag_removed"@.len());
}

/// An event as read back: the version and variant its tag names (as
/// `classify::parse_version` reads it) come with it. `at` is seconds since
/// the Unix epoch.
#[derive(Debug, Clone)]
pub struct Event {
    pub id: u64,
    pub repo_id: u64,
    pub registry: String,
    pub name: String,
    pub tag: String,
    pub version: Option<String>,
    pub variant: Option<String>,
    pub kind: EventKind,
    /// The digest the tag points at after this event; absent for removals
    /// and for additions whose digest is not fetched yet.
    pub digest: Option<String>,
    /// The digest before a move.
    pub previous_digest: Option<String>,
    pub at: i64,
}

/// What to append; the id is assigned on insert.
#[derive(Debug, Clone)]
pub struct NewEvent {
    pub repo_id: u64,
    pub tag: String,
    pub kind: EventKind,
    pub digest: Option<String>,
    pub previous_digest: Option<String>,
}

impl Event {
    /// An event from its stored columns. An unknown kind name reads as an
    /// addition, and an instant the calendar cannot represent as the epoch.
    pub fn from_parts(
        id: u64,
        repo_id: u64,
        registry: String,
        name: String,
        tag: String,
        kind: &str,
        digest: Option<String>,
        previous_digest: Option<String>,
        at: i64,
    ) -> (e: Event)
        ensures
            e.id == id,
            e.repo_id == repo_id,
            e.registry == registry,
            e.name == name,
            e.tag == tag,
            opt_view(e.version) == match spec_parse_version(tag@) {
                Some(p) => Some(p.version),
                None => None,
            },
            opt_view(e.variant) == match spec_parse_version(tag@) {
                Some(p) => p.variant,
                None => None,
            },
            e.kind == match kind_of_name(kind@) {
                Some(k) => k,
                None => EventKind::TagAdded,
            },
            e.digest == digest,
            e.previous_digest == previous_digest,
            e.at == spec_timestamp_or_epoch(at),
    {
        let parsed = parse_version(tag.as_str());
        let (version, variant) = match parsed {
            Some(p) => (Some(p.version), p.variant),
            None => (None, None),
        };
        let kind = match EventKind::parse(kind) {
            Some(k) => k,
            None => EventKind::TagAdded,
        };
        Event {
            id,
            repo_id,
            registry,
            name,
            tag,
            version,
            variant,
            kind,
            digest,
            previous_digest,
            at: timestamp_or_epoch(at),
        }
    }
}

// ---------------------------------------------------------------------
// The feed
// ---------------------------------------------------------------------

/// Whether the feed shows `e` under `exclusions` (keyed by repo id): it
/// does unless its repo's set excludes its tag.
pub open spec fn feed_keeps(exclusions: Map<u64, ExclusionSet>, e: Event) -> bool {
    !(exclusions.contains_key(e.repo_id) && spec_excludes(
        exclusions[e.repo_id].name_view(),
        exclusions[e.repo_id].rules_view(),
        e.tag@,
    ))
}

/// The events of `batch` the feed shows.
pub open spec fn kept_events(exclusions: Map<u64, ExclusionSet>, batch: Seq<Event>) -> Seq<Event> {
    batch.filter(|e: Event| feed_keeps(exclusions, e))
}

/// A feed page being filled, batch by batch.
#[derive(Debug, Clone)]
pub struct FeedPage {
    /// The events collected so far, oldest first.
    pub events: Vec<Event>,
    /// The id of the last event scanned; the next batch starts after it.
    pub cursor: u64,
    /// Whether the page is complete: it is full, or the table has ended.
    pub done: bool,
}

/// The page after scanning `batch` (the next at most `limit` events after
/// the page's cursor): `consumed` is how many of the batch events were
/// scanned before the page filled up.
pub open spec fn feed_step_result(
    exclusions: Map<u64, ExclusionSet>,
    events: Seq<Event>,
    cursor: u64,
    batch: Seq<Event>,
    limit: nat,
    consumed: int,
) -> bool {
    let added = kept_events(exclusions, batch.take(consumed));
    &&& 0 <= consumed <= batch.len()
    &&& events.len() + added.len() <= limit
    &&& (consumed < batch.len() ==> events.len() + added.len() == limit)
    &&& (consumed > 0 ==> events.len() + kept_events(exclusions, batch.take(consumed - 1)).len()
        < limit)
}

/// The page after a step holds the events it had plus the kept events
/// among the first `consumed` of the batch, and its cursor is the id of
/// the last event scanned.
pub open spec fn feed_step_outcome(
    exclusions: Map<u64, ExclusionSet>,
    events: Seq<Event>,
    cursor: u64,
    batch: Seq<Event>,
    limit: nat,
    consumed: int,
    next_events: Seq<Event>,
    next_cursor: u64,
) -> bool {
    &&& feed_step_result(exclusions, events, cursor, batch, limit, consumed)
    &&& next_events == events + kept_events(exclusions, batch.take(consumed))
    &&& next_cursor == if consumed > 0 {
        batch[consumed - 1].id
    } else {
        cursor
    }
}

impl FeedPage {
    /// An empty page scanning from `after`.
    pub fn start(after: u64) -> (p: FeedPage)
        ensures
            p.events@.len() == 0,
            p.cursor == after,
            !p.done,
    {
        FeedPage { events: Vec::new(), cursor: after, done: false }
    }
}

proof fn lemma_kept_take_step(exclusions: Map<u64, ExclusionSet>, batch: Seq<Event>, i: int)
    requires
        0 <= i < batch.len(),
    ensures
        kept_events(exclusions, batch.take(i + 1)) == if feed_keeps(exclusions, batch[i]) {
            kept_events(exclusions, batch.take(i)).push(batch[i])
        } else {
            kept_events(exclusions, batch.take(i))
        },
{
    let f = |e: Event| feed_keeps(exclusions, e);
    assert(batch.take(i + 1) =~= batch.take(i).push(batch[i]));
    batch.take(i).lemma_filter_push(batch[i], f);
}

impl Event {
    /// One step of the feed as consumers read it: scan the next batch of
    /// events after the page's cursor (at most `limit`, oldest first),
    /// keeping those no exclusion hides, until the page holds `limit`
    /// events. A batch shorter than `limit` means the table has ended. Ids
    /// stay sparse: the cursor moves past skipped events, so a run of
    /// excluded events never stalls the scan. A page that is already full
    /// (at a limit of 0, the empty page) is done at once.
    pub fn feed_step(
        exclusions: &HashMap<u64, ExclusionSet>,
        page: FeedPage,
        batch: Vec<Event>,
        limit: usize,
    ) -> (next: FeedPage)
        requires
            page.events@.len() <= limit,
        ensures
            exists|consumed: int|
                #[trigger] feed_step_outcome(
                    exclusions@,
                    page.events@,
                    page.cursor,
                    batch@,
                    limit as nat,
                    consumed,
                    next.events@,
                    next.cursor,
                ),
            next.done == (next.events@.len() == limit || batch@.len() < limit),
    {
        if page.events.len() == limit {
            // A full page (a page of no events, at limit 0) is done at once.
            proof {
                assert(batch@.take(0) =~= Seq::<Event>::empty());
                reveal(Seq::filter);
                assert(kept_events(exclusions@, batch@.take(0)) =~= Seq::<Event>::empty());
                assert(page.events@ + kept_events(exclusions@, batch@.take(0)) =~= page.events@);
                assert(feed_step_result(exclusions@, page.events@, page.cursor, batch@, limit as nat, 0));
            }
            let ghost before = page.events@;
            let next = FeedPage { events: page.events, cursor: page.cursor, done: true };
            assert(next.events@ == before);
            assert(feed_step_outcome(exclusions@, before, page.cursor, batch@, limit as nat, 0, next.events@, next.cursor));
            return next;
        }
        let exhausted = batch.len() < limit;
        let ghost all = batch@;
        let mut events = page.events;
        let ghost start = events@;
        assert(start == page.events@);
        assert(all == batch@);
        let mut cursor = page.cursor;
        for event in it: batch.into_iter()
            invariant
                it.seq() == all,
                all == batch@,
                start == page.events@,
                start.len() < limit,
                events@ == start + kept_events(exclusions@, all.take(it.index())),
                events@.len() < limit,
                cursor == if it.index() > 0 {
                    all[it.index() - 1].id
                } else {
                    page.cursor
                },
                exhausted == (all.len() < limit),
        {
            let ghost i = it.index();
            cursor = event.id;
            proof {
                lemma_kept_take_step(exclusions@, all, i);
            }
            let excluded = match exclusions.get(&event.repo_id) {
                Some(set) => set.excludes(event.tag.as_str()),
                None => false,
            };
            assert(excluded == !feed_keeps(exclusions@, all[i]));
            if !excluded {
                events.push(event);
                if events.len() == limit {
                    assert(feed_step_result(exclusions@, start, page.cursor, all, limit as nat, i + 1));
                    assert(feed_step_outcome(exclusions@, start, page.cursor, all, limit as nat, i + 1, events@, cursor));
                    let next = FeedPage { events, cursor, done: true };
                    assert(feed_step_outcome(exclusions@, page.events@, page.cursor, batch@, limit as nat, i + 1, next.events@, next.cursor));
                    return next;
                }
            }
        }
        proof {
            assert(all.take(all.len() as int) =~= all);
            if all.len() > 0 {
                lemma_kept_take_step(exclusions@, all, all.len() - 1);
            }
        }
        assert(feed_step_outcome(exclusions@, start, page.cursor, all, limit as nat, all.len() as int, events@, cursor));
        assert(feed_step_outcome(exclusions@, page.events@, page.cursor, batch@, limit as nat, all.len() as int, events@, cursor));
        let next = FeedPage { events, cursor, done: exhausted };
        assert(feed_step_outcome(exclusions@, page.events@, page.cursor, batch@, limit as nat, all.len() as int, next.events@, next.cursor));
        next
    }
}

// ---------------------------------------------------------------------
// What the feed reads, over many steps
// ---------------------------------------------------------------------

/// The event table's rows in id order: ids strictly increase.
pub open spec fn ids_increasing(table: Seq<Event>) -> bool {
    forall|i: int, j: int| 0 <= i < j < table.len() ==> table[i].id < table[j].id
}

/// The events of `table` with an id greater than `cursor`, in order: what
/// listing after a cursor reads.
pub open spec fn events_after(table: Seq<Event>, cursor: u64) -> Seq<Event> {
    table.filter(|e: Event| e.id > cursor)
}

/// The next batch after `cursor`: at most `limit` of the events after it.
pub open spec fn batch_after(table: Seq<Event>, cursor: u64, limit: nat) -> Seq<Event> {
    let rest = events_after(table, cursor);
    if rest.len() <= limit {
        rest
    } else {
        rest.take(limit as int)
    }
}

/// `p` splits `s` at `cursor`: the events before it have ids up to
/// `cursor`, the others beyond.
pub open spec fn splits_at(s: Seq<Event>, cursor: u64, p: int) -> bool {
    &&& 0 <= p <= s.len()
    &&& forall|i: int| 0 <= i < p ==> (#[trigger] s[i]).id <= cursor
    &&& forall|i: int| p <= i < s.len() ==> (#[trigger] s[i]).id > cursor
}

/// A page being filled from `after` holds exactly the shown events among
/// those after `after` up to its cursor.
pub open spec fn feed_invariant(
    exclusions: Map<u64, ExclusionSet>,
    table: Seq<Event>,
    after: u64,
    events: Seq<Event>,
    cursor: u64,
) -> bool {
    let all = events_after(table, after);
    &&& cursor >= after
    &&& exists|p: int| #[trigger]
        splits_at(all, cursor, p) && events == kept_events(exclusions, all.take(p))
}

/// What a complete feed page holds: the first `limit` of the shown events
/// after `after` (all of them when there are fewer).
pub open spec fn feed_page(
    exclusions: Map<u64, ExclusionSet>,
    table: Seq<Event>,
    after: u64,
    limit: nat,
) -> Seq<Event> {
    let shown = kept_events(exclusions, events_after(table, after));
    if shown.len() <= limit {
        shown
    } else {
        shown.take(limit as int)
    }
}

proof fn lemma_filter_all<A>(s: Seq<A>, pred: spec_fn(A) -> bool)
    requires
        forall|i: int| 0 <= i < s.len() ==> pred(s[i]),
    ensures
        s.filter(pred) == s,
    decreases s.len(),
{
    reveal(Seq::filter);
    if s.len() > 0 {
        lemma_filter_all(s.drop_last(), pred);
        assert(s.drop_last().push(s.last()) =~= s);
    }
}

proof fn lemma_filter_none<A>(s: Seq<A>, pred: spec_fn(A) -> bool)
    requires
        forall|i: int| 0 <= i < s.len() ==> !pred(s[i]),
    ensures
        s.filter(pred) == Seq::<A>::empty(),
    decreases s.len(),
{
    reveal(Seq::filter);
    if s.len() > 0 {
        lemma_filter_none(s.drop_last(), pred);
    }
}

/// Where the ids of an id-ordered table pass `cursor`.
proof fn lemma_split_point(table: Seq<Event>, cursor: u64) -> (q: int)
    requires
        ids_increasing(table),
    ensures
        splits_at(table, cursor, q),
        events_after(table, cursor) == table.skip(q),
    decreases table.len(),
{
    let q = if table.len() == 0 {
        0
    } else if table.last().id <= cursor {
        table.len() as int
    } else {
        lemma_split_point(table.drop_last(), cursor)
    };
    assert(splits_at(table, cursor, q)) by {
        if table.len() > 0 && table.last().id > cursor {
            let d = table.drop_last();
            assert forall|i: int| 0 <= i < q implies (#[trigger] table[i]).id <= cursor by {
                assert(table[i] == d[i]);
            }
            assert forall|i: int| q <= i < table.len() implies (#[trigger] table[i]).id > cursor by {
                if i < table.len() - 1 {
                    assert(table[i] == d[i]);
                }
            }
        }
    }
    let f = |e: Event| e.id > cursor;
    assert(table =~= table.take(q) + table.skip(q));
    Seq::filter_distributes_over_add(table.take(q), table.skip(q), f);
    lemma_filter_none(table.take(q), f);
    lemma_filter_all(table.skip(q), f);
    assert(Seq::<Event>::empty() + table.skip(q) =~= table.skip(q));
    q
}

proof fn lemma_splits_unique(s: Seq<Event>, cursor: u64, p: int, r: int)
    requires
        splits_at(s, cursor, p),
        splits_at(s, cursor, r),
    ensures
        p == r,
{
    if p < r {
        assert(s[p].id > cursor);
    } else if r < p {
        assert(s[r].id > cursor);
    }
}

/// A page starting at `after` satisfies the feed invariant.
pub proof fn lemma_feed_start(exclusions: Map<u64, ExclusionSet>, table: Seq<Event>, after: u64)
    ensures
        feed_invariant(exclusions, table, after, Seq::empty(), after),
{
    let all = events_after(table, after);
    let f = |e: Event| e.id > after;
    assert forall|i: int| 0 <= i < all.len() implies (#[trigger] all[i]).id > after by {
        table.lemma_filter_pred(f, i);
    }
    assert(splits_at(all, after, 0));
    assert(all.take(0) =~= Seq::<Event>::empty());
    reveal(Seq::filter);
    assert(kept_events(exclusions, all.take(0)) =~= Seq::<Event>::empty());
}

/// The feed reads what it promises. Start a page at `after`, and step it
/// (with [`Event::feed_step`]) each time on the next batch of the table
/// after the page's cursor, at most `limit` events long: every page keeps
/// the feed invariant, and once a step reports the page done, the page
/// holds exactly the first `limit` events after `after` that no exclusion
/// hides (all of them when there are fewer). A run of excluded events, even
/// one longer than a batch, never stalls it.
#[verifier::rlimit(40)]
pub proof fn lemma_feed_step(
    exclusions: Map<u64, ExclusionSet>,
    table: Seq<Event>,
    after: u64,
    limit: nat,
    events: Seq<Event>,
    cursor: u64,
    next_events: Seq<Event>,
    next_cursor: u64,
    next_done: bool,
)
    requires
        ids_increasing(table),
        feed_invariant(exclusions, table, after, events, cursor),
        events.len() < limit,
        exists|consumed: int|
            #[trigger] feed_step_outcome(
                exclusions,
                events,
                cursor,
                batch_after(table, cursor, limit),
                limit,
                consumed,
                next_events,
                next_cursor,
            ),
        next_done == (next_events.len() == limit || batch_after(table, cursor, limit).len() < limit),
    ensures
        feed_invariant(exclusions, table, after, next_events, next_cursor),
        next_done ==> next_events == feed_page(exclusions, table, after, limit),
{
    let all = events_after(table, after);
    let batch = batch_after(table, cursor, limit);
    let m = choose|consumed: int|
        #[trigger] feed_step_outcome(
            exclusions,
            events,
            cursor,
            batch,
            limit,
            consumed,
            next_events,
            next_cursor,
        );
    let p = choose|p: int| #[trigger] splits_at(all, cursor, p) && events == kept_events(exclusions, all.take(p));
    // the events after the cursor are those of `all` from `p` on
    let qa = lemma_split_point(table, after);
    let qc = lemma_split_point(table, cursor);
    assert(all == table.skip(qa));
    assert(qa <= qc) by {
        if qc < qa {
            assert(table[qc].id > cursor);
            assert(table[qc].id <= after);
        }
    }
    assert(splits_at(all, cursor, qc - qa)) by {
        assert forall|i: int| 0 <= i < qc - qa implies (#[trigger] all[i]).id <= cursor by {
            assert(all[i] == table[qa + i]);
        }
        assert forall|i: int| qc - qa <= i < all.len() implies (#[trigger] all[i]).id > cursor by {
            assert(all[i] == table[qa + i]);
        }
    }
    lemma_splits_unique(all, cursor, p, qc - qa);
    let rest = events_after(table, cursor);
    assert(rest =~= all.skip(p));
    assert(batch =~= all.subrange(p, p + batch.len()));
    // what the step added
    let f = |e: Event| feed_keeps(exclusions, e);
    assert(batch.take(m) =~= all.subrange(p, p + m));
    assert(all.take(p + m) =~= all.take(p) + all.subrange(p, p + m));
    Seq::filter_distributes_over_add(all.take(p), all.subrange(p, p + m), f);
    assert(next_events == kept_events(exclusions, all.take(p + m)));
    // the new cursor splits `all` after the events scanned
    assert(forall|i: int, j: int| 0 <= i < j < all.len() ==> all[i].id < all[j].id) by {
        assert forall|i: int, j: int| 0 <= i < j < all.len() implies all[i].id < all[j].id by {
            assert(all[i] == table[qa + i]);
            assert(all[j] == table[qa + j]);
        }
    }
    if m > 0 {
        assert(next_cursor == all[p + m - 1].id);
        assert(splits_at(all, next_cursor, p + m)) by {
            assert forall|i: int| 0 <= i < p + m implies (#[trigger] all[i]).id <= next_cursor by {
                if i < p + m - 1 {
                    assert(all[i].id < all[p + m - 1].id);
                }
            }
            assert forall|i: int| p + m <= i < all.len() implies (#[trigger] all[i]).id > next_cursor by {
                assert(all[p + m - 1].id < all[i].id);
            }
        }
        assert(next_cursor > after) by {
            table.lemma_filter_pred(|e: Event| e.id > after, p + m - 1);
        }
    } else {
        assert(next_cursor == cursor);
        assert(all.take(p + m) =~= all.take(p));
    }
    assert(splits_at(all, next_cursor, p + m) && next_events == kept_events(exclusions, all.take(p + m)));
    // a finished page holds the first `limit` shown events
    if next_done {
        let shown = kept_events(exclusions, all);
        assert(all =~= all.take(p + m) + all.skip(p + m));
        Seq::filter_distributes_over_add(all.take(p + m), all.skip(p + m), f);
        if next_events.len() == limit {
            assert(shown.take(limit as int) =~= next_events);
        } else {
            assert(batch.len() < limit);
            assert(batch == rest);
            if m < batch.len() {
                assert(false);
            }
            assert(p + m == all.len());
            assert(all.skip(p + m) =~= Seq::<Event>::empty());
            reveal(Seq::filter);
            assert(shown =~= next_events);
        }
    }
}

/// A page that holds `limit` events is the feed page: its events are the
/// first `limit` shown events after `after`. In particular, at a limit of
/// 0 the page that starts empty is the (empty) feed page.
pub proof fn lemma_full_page(
    exclusions: Map<u64, ExclusionSet>,
    table: Seq<Event>,
    after: u64,
    limit: nat,
    events: Seq<Event>,
    cursor: u64,
)
    requires
        feed_invariant(exclusions, table, after, events, cursor),
        events.len() == limit,
    ensures
        events == feed_page(exclusions, table, after, limit),
{
    let all = events_after(table, after);
    let p = choose|p: int| #[trigger] splits_at(all, cursor, p) && events == kept_events(exclusions, all.take(p));
    let f = |e: Event| feed_keeps(exclusions, e);
    assert(all =~= all.take(p) + all.skip(p));
    Seq::filter_distributes_over_add(all.take(p), all.skip(p), f);
    let shown = kept_events(exclusions, all);
    assert(shown.take(limit as int) =~= events);
}

/// The feed never shows an event of an excluded tag, whatever its kind:
/// no event of a feed page, nor of what one step adds, has a repo whose
/// exclusion set excludes its tag; and every other event of a batch is
/// kept.
pub proof fn lemma_feed_hides_excluded(
    exclusions: Map<u64, ExclusionSet>,
    table: Seq<Event>,
    after: u64,
    limit: nat,
    batch: Seq<Event>,
)
    ensures
        forall|k: int|
            0 <= k < feed_page(exclusions, table, after, limit).len() ==> !(exclusions.contains_key(
                (#[trigger] feed_page(exclusions, table, after, limit)[k]).repo_id,
            ) && spec_excludes(
                exclusions[feed_page(exclusions, table, after, limit)[k].repo_id].name_view(),
                exclusions[feed_page(exclusions, table, after, limit)[k].repo_id].rules_view(),
                feed_page(exclusions, table, after, limit)[k].tag@,
            )),
        forall|k: int|
            0 <= k < kept_events(exclusions, batch).len() ==> !(exclusions.contains_key(
                (#[trigger] kept_events(exclusions, batch)[k]).repo_id,
            ) && spec_excludes(
                exclusions[kept_events(exclusions, batch)[k].repo_id].name_view(),
                exclusions[kept_events(exclusions, batch)[k].repo_id].rules_view(),
                kept_events(exclusions, batch)[k].tag@,
            )),
        forall|k: int|
            0 <= k < batch.len() && !(exclusions.contains_key((#[trigger] batch[k]).repo_id)
                && spec_excludes(
                exclusions[batch[k].repo_id].name_view(),
                exclusions[batch[k].repo_id].rules_view(),
                batch[k].tag@,
            )) ==> kept_events(exclusions, batch).contains(batch[k]),
{
    let f = |e: Event| feed_keeps(exclusions, e);
    assert forall|k: int| 0 <= k < kept_events(exclusions, batch).len() implies !(exclusions.contains_key(
        (#[trigger] kept_events(exclusions, batch)[k]).repo_id,
    ) && spec_excludes(
        exclusions[kept_events(exclusions, batch)[k].repo_id].name_view(),
        exclusions[kept_events(exclusions, batch)[k].repo_id].rules_view(),
        kept_events(exclusions, batch)[k].tag@,
    )) by {
        batch.lemma_filter_pred(f, k);
    }
    let shown = kept_events(exclusions, events_after(table, after));
    assert forall|k: int| 0 <= k < feed_page(exclusions, table, after, limit).len() implies !(exclusions.contains_key(
        (#[trigger] feed_page(exclusions, table, after, limit)[k]).repo_id,
    ) && spec_excludes(
        exclusions[feed_page(exclusions, table, after, limit)[k].repo_id].name_view(),
        exclusions[feed_page(exclusions, table, after, limit)[k].repo_id].rules_view(),
        feed_page(exclusions, table, after, limit)[k].tag@,
    )) by {
        assert(feed_page(exclusions, table, after, limit)[k] == shown[k]);
        events_after(table, after).lemma_filter_pred(f, k);
    }
    assert forall|k: int|
        0 <= k < batch.len() && !(exclusions.contains_key((#[trigger] batch[k]).repo_id)
            && spec_excludes(
            exclusions[batch[k].repo_id].name_view(),
            exclusions[batch[k].repo_id].rules_view(),
            batch[k].tag@,
        )) implies kept_events(exclusions, batch).contains(batch[k]) by {
        batch.filter_lemma(f);
        assert(f(batch[k]));
    }
}

} // verus!
