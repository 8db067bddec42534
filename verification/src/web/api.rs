//! What the JSON API answers with: repos hydrated with their tags as
//! consumers read them, the query options, and the event feed's page.
use vstd::prelude::*;
use crate::db::event::Event;
use crate::db::repo::Repo;
use crate::db::repo_state::RepoState;
use crate::db::tag::Tag;
use crate::db::tag_history::TagHistory;
use crate::db::version_exclusion::{spec_excludes, ExclusionSet, VersionExclusion};
use crate::poller::classify::{opt_view, parse_version, spec_parse_version};

verus! {

#[derive(Debug, Clone)]
pub struct HydratedTagHistory {
    pub digest: String,
    pub first_seen_at: i64,
    pub last_seen_at: i64,
}

#[derive(Debug, Clone)]
pub struct HydratedTag {
    pub id: u64,
    pub tag: String,
    pub active: bool,
    /// The version the tag names (`15.11`, `1.27.3`), when it names one.
    pub version: Option<String>,
    /// What follows the first `-` of a versioned tag (`alpine`, `rc1`).
    pub variant: Option<String>,
    /// Build metadata split off the version (`ubu2604.ls48` for
    /// `12.0ubu2604-ls48`).
    pub build: Option<String>,
    /// Whether this tag's version is excluded from version matching, by an
    /// admin's rule or a publisher rule.
    pub excluded: bool,
    pub first_seen_at: i64,
    pub last_seen_at: i64,
    pub history: Vec<HydratedTagHistory>,
}

#[derive(Debug, Clone)]
pub struct HydratedRepo {
    pub id: u64,
    pub registry: String,
    pub name: String,
    pub active: bool,
    pub tag: Vec<HydratedTag>,
    /// The admin's version exclusions for this repo.
    pub exclusions: Vec<VersionExclusion>,
    pub last_checked_at: Option<i64>,
    pub last_attempted_at: Option<i64>,
    pub last_error: Option<String>,
    pub consecutive_failures: u32,
}

/// Options for a hydrated response.
#[derive(Debug, Clone)]
pub struct HydrateQuery {
    /// Also return tags whose version is excluded, flagged with
    /// `excluded: true`. Off by default: consumers resolving versions must
    /// not see them.
    pub include_excluded: bool,
}

#[derive(Debug, Clone)]
pub struct LookupQuery {
    pub registry: String,
    pub name: String,
    pub include_excluded: bool,
}

#[derive(Debug, Clone)]
pub struct NewExclusion {
    /// A version as the classifier reads it (`20.04.1`) or a prefix
    /// (`14.3.*`).
    pub version: String,
    pub note: Option<String>,
}

#[derive(Debug, Clone)]
pub struct EventsQuery {
    /// Return events with an id greater than this; 0 means from the
    /// beginning.
    pub after: u64,
    pub limit: usize,
}

/// How many events a page holds when the query does not say.
pub fn default_event_limit() -> (n: usize)
    ensures
        n == 200,
{
    200
}

impl EventsQuery {
    /// The page size actually served: the requested limit, clamped to
    /// 1..=1000.
    pub fn page_limit(&self) -> (n: usize)
        ensures
            n == if self.limit < 1 {
                1
            } else if self.limit > 1000 {
                1000
            } else {
                self.limit
            },
    {
        if self.limit < 1 {
            1
        } else if self.limit > 1000 {
            1000
        } else {
            self.limit
        }
    }
}

#[derive(Debug, Clone)]
pub struct EventsPage {
    pub events: Vec<Event>,
    /// The newest event id that exists, whether or not it is in this page.
    pub latest_id: u64,
}

pub open spec fn history_matches(h: HydratedTagHistory, t: TagHistory) -> bool {
    &&& h.digest@ == t.digest@
    &&& h.first_seen_at == t.first_seen_at
    &&& h.last_seen_at == t.last_seen_at
}

/// `h` is `t` (with its history `hist`) as consumers read it.
pub open spec fn hydrated_tag_matches(h: HydratedTag, t: Tag, hist: Seq<TagHistory>, excluded: bool) -> bool {
    &&& h.id == t.id
    &&& h.tag@ == t.tag@
    &&& h.active == t.active
    &&& opt_view(h.version) == match spec_parse_version(t.tag@) {
        Some(p) => Some(p.version),
        None => None,
    }
    &&& opt_view(h.variant) == match spec_parse_version(t.tag@) {
        Some(p) => p.variant,
        None => None,
    }
    &&& opt_view(h.build) == match spec_parse_version(t.tag@) {
        Some(p) => p.build,
        None => None,
    }
    &&& h.excluded == excluded
    &&& h.first_seen_at == t.first_seen_at
    &&& h.last_seen_at == t.last_seen_at
    &&& h.history@.len() == hist.len()
    &&& forall|k: int| 0 <= k < hist.len() ==> history_matches(#[trigger] h.history@[k], hist[k])
}

/// Whether a hydrated response shows the tag `tag` of the repo `name` with
/// rules `rules`: tags of an excluded version only when asked for.
pub open spec fn hydrate_shows(
    name: Seq<char>,
    rules: Seq<VersionExclusion>,
    include_excluded: bool,
    tag: Seq<char>,
) -> bool {
    include_excluded || !spec_excludes(name, rules, tag)
}

pub open spec fn shown_tags(
    name: Seq<char>,
    rules: Seq<VersionExclusion>,
    include_excluded: bool,
    tags: Seq<(Tag, Vec<TagHistory>)>,
) -> Seq<(Tag, Vec<TagHistory>)> {
    tags.filter(|p: (Tag, Vec<TagHistory>)| hydrate_shows(name, rules, include_excluded, p.0.tag@))
}

fn hydrate_history(history: Vec<TagHistory>) -> (r: Vec<HydratedTagHistory>)
    ensures
        r@.len() == history@.len(),
        forall|k: int| 0 <= k < history@.len() ==> history_matches(#[trigger] r@[k], history@[k]),
{
    let ghost all = history@;
    let mut r: Vec<HydratedTagHistory> = Vec::new();
    for h in it: history.into_iter()
        invariant
            it.seq() == all,
            r@.len() == it.index(),
            forall|k: int| 0 <= k < it.index() ==> history_matches(#[trigger] r@[k], all[k]),
    {
        r.push(HydratedTagHistory { digest: h.digest, first_seen_at: h.first_seen_at, last_seen_at: h.last_seen_at });
    }
    r
}

/// A repo with its tags (each with its history, newest first) as
/// consumers read them. Tags of an excluded version are left out unless
/// `include_excluded`, in which case they are returned flagged; the
/// exclusions are those of `exclusions` and the repo's publisher.
pub fn hydrate(
    repo: Repo,
    include_excluded: bool,
    exclusions: Vec<VersionExclusion>,
    tags: Vec<(Tag, Vec<TagHistory>)>,
    state: Option<RepoState>,
) -> (r: HydratedRepo)
    ensures
        r.id == repo.id,
        r.registry == repo.registry,
        r.name == repo.name,
        r.active == repo.active,
        r.exclusions@ == exclusions@,
        ({
            let shown = shown_tags(repo.name@, exclusions@, include_excluded, tags@);
            &&& r.tag@.len() == shown.len()
            &&& forall|k: int|
                0 <= k < shown.len() ==> hydrated_tag_matches(
                    #[trigger] r.tag@[k],
                    shown[k].0,
                    shown[k].1@,
                    spec_excludes(repo.name@, exclusions@, shown[k].0.tag@),
                )
        }),
        r.last_checked_at == match state {
            Some(s) => s.last_checked_at,
            None => None,
        },
        r.last_attempted_at == match state {
            Some(s) => s.last_attempted_at,
            None => None,
        },
        r.last_error == match state {
            Some(s) => s.last_error,
            None => None,
        },
        r.consecutive_failures == match state {
            Some(s) => s.consecutive_failures,
            None => 0,
        },
{
    let set = ExclusionSet::new(repo.name.as_str(), exclusions);
    let ghost rules = exclusions@;
    let ghost name = repo.name@;
    let ghost all = tags@;
    let ghost pred = |p: (Tag, Vec<TagHistory>)| hydrate_shows(name, rules, include_excluded, p.0.tag@);
    let mut out: Vec<HydratedTag> = Vec::new();
    for pair in it: tags.into_iter()
        invariant
            it.seq() == all,
            set.name_view() == name,
            set.rules_view() == rules,
            pred == (|p: (Tag, Vec<TagHistory>)| hydrate_shows(name, rules, include_excluded, p.0.tag@)),
            ({
                let shown = all.take(it.index()).filter(pred);
                &&& out@.len() == shown.len()
                &&& forall|k: int|
                    0 <= k < shown.len() ==> hydrated_tag_matches(
                        #[trigger] out@[k],
                        shown[k].0,
                        shown[k].1@,
                        spec_excludes(name, rules, shown[k].0.tag@),
                    )
            }),
    {
        let ghost i = it.index();
        proof {
            assert(all.take(i + 1) =~= all.take(i).push(all[i]));
            all.take(i).lemma_filter_push(all[i], pred);
        }
        let (t, history) = pair;
        let excluded = set.excludes(t.tag.as_str());
        if excluded && !include_excluded {
        } else {
            let parsed = parse_version(t.tag.as_str());
            let (version, variant, build) = match parsed {
                Some(p) => (Some(p.version), p.variant, p.build),
                None => (None, None, None),
            };
            let h = HydratedTag {
                id: t.id,
                tag: t.tag,
                active: t.active,
                version,
                variant,
                build,
                excluded,
                first_seen_at: t.first_seen_at,
                last_seen_at: t.last_seen_at,
                history: hydrate_history(history),
            };
            out.push(h);
        }
    }
    proof {
        assert(all.take(all.len() as int) =~= all);
    }
    let (last_checked_at, last_attempted_at, last_error, consecutive_failures) = match state {
        Some(s) => (s.last_checked_at, s.last_attempted_at, s.last_error, s.consecutive_failures),
        None => (None, None, None, 0),
    };
    HydratedRepo {
        id: repo.id,
        registry: repo.registry,
        name: repo.name,
        active: repo.active,
        tag: out,
        exclusions: set.into_rules(),
        last_checked_at,
        last_attempted_at,
        last_error,
        consecutive_failures,
    }
}

/// In the default view (excluded tags not asked for), no tag a hydrated
/// response shows is excluded.
pub proof fn lemma_default_view_hides_excluded(
    name: Seq<char>,
    rules: Seq<VersionExclusion>,
    tags: Seq<(Tag, Vec<TagHistory>)>,
    k: int,
)
    requires
        0 <= k < shown_tags(name, rules, false, tags).len(),
    ensures
        !spec_excludes(name, rules, shown_tags(name, rules, false, tags)[k].0.tag@),
{
    tags.lemma_filter_pred(|p: (Tag, Vec<TagHistory>)| hydrate_shows(name, rules, false, p.0.tag@), k);
}

/// The default view drops exactly the excluded tags: its tags are those
/// of the repo that its exclusion set does not exclude, in order, so every
/// tag nothing excludes (a plain `15.11` of any repo outside
/// linuxserver.io without rules, say) is returned. Asked to include
/// excluded tags, it returns every tag.
pub proof fn lemma_default_view_keeps_unexcluded(
    name: Seq<char>,
    rules: Seq<VersionExclusion>,
    tags: Seq<(Tag, Vec<TagHistory>)>,
)
    ensures
        shown_tags(name, rules, false, tags) == tags.filter(
            |p: (Tag, Vec<TagHistory>)| !spec_excludes(name, rules, p.0.tag@),
        ),
        shown_tags(name, rules, true, tags) == tags,
        forall|k: int|
            0 <= k < tags.len() && !spec_excludes(name, rules, (#[trigger] tags[k]).0.tag@) ==> shown_tags(
                name,
                rules,
                false,
                tags,
            ).contains(tags[k]),
{
    let shows = |p: (Tag, Vec<TagHistory>)| hydrate_shows(name, rules, false, p.0.tag@);
    let unexcluded = |p: (Tag, Vec<TagHistory>)| !spec_excludes(name, rules, p.0.tag@);
    assert(shows =~= unexcluded);
    lemma_filter_all_kept(tags, |p: (Tag, Vec<TagHistory>)| hydrate_shows(name, rules, true, p.0.tag@));
    assert forall|k: int|
        0 <= k < tags.len() && !spec_excludes(name, rules, (#[trigger] tags[k]).0.tag@) implies shown_tags(
            name,
            rules,
            false,
            tags,
        ).contains(tags[k]) by {
        lemma_filter_keeps(tags, shows, k);
    }
}

proof fn lemma_filter_all_kept<A>(s: Seq<A>, pred: spec_fn(A) -> bool)
    requires
        forall|i: int| 0 <= i < s.len() ==> pred(s[i]),
    ensures
        s.filter(pred) == s,
    decreases s.len(),
{
    reveal(Seq::filter);
    if s.len() > 0 {
        lemma_filter_all_kept(s.drop_last(), pred);
        assert(s.drop_last().push(s.last()) =~= s);
    }
}

/// An element that satisfies the predicate survives the filter.
proof fn lemma_filter_keeps<A>(s: Seq<A>, pred: spec_fn(A) -> bool, k: int)
    requires
        0 <= k < s.len(),
        pred(s[k]),
    ensures
        s.filter(pred).contains(s[k]),
    decreases s.len(),
{
    reveal(Seq::filter);
    if k == s.len() - 1 {
        assert(s.filter(pred) == s.drop_last().filter(pred).push(s.last()));
        assert(s.filter(pred)[s.filter(pred).len() - 1] == s[k]);
    } else {
        lemma_filter_keeps(s.drop_last(), pred, k);
        assert(s.drop_last()[k] == s[k]);
        let i = choose|i: int| 0 <= i < s.drop_last().filter(pred).len() && s.drop_last().filter(pred)[i] == s[k];
        if pred(s.last()) {
            assert(s.filter(pred)[i] == s[k]);
        } else {
            assert(s.filter(pred) == s.drop_last().filter(pred));
        }
    }
}

} // verus!
