//! A repo's page: its heading, the admin's version exclusions, its
//! refresh state, its recent events, and its tags with their digests.
use vstd::prelude::*;
use vstd::string::StringExecFns;
use crate::db::event::{Event, EventKind};
use crate::db::repo::Repo;
use crate::db::repo_state::RepoState;
use crate::db::tag::Tag;
use crate::db::tag_history::TagHistory;
use crate::db::version_exclusion::{
    rule_description, spec_excludes, spec_rule_for, Exclusion, ExclusionSet, VersionExclusion,
};
use crate::poller::classify::{
    is_immutable, opt_view, parse_version, publisher_alias, spec_is_immutable, spec_parse_version,
    spec_publisher_alias, TagVersion, TagVersionView, LINUXSERVER_ALIAS,
};
use crate::web::formatting::{
    decimal, decimal_string, format_ago, format_short_digest, spec_ago, spec_short_digest,
};
use crate::web::header::{escape_html, page, render_heading, spec_escape_html, spec_page, spec_render_heading};

verus! {

/// Client-side shape of a rule; the server validates the same way.
pub const RULE_PATTERN: &'static str = "[0-9]+(\\.[0-9]+)*(\\.\\*)?";

/// A tag with its digest history, newest first.
pub type TagWithHistory = (Tag, Vec<TagHistory>);

/// The tags of `tags` that the rules `rules` of the repo `name` exclude.
pub open spec fn excluded_tags(
    name: Seq<char>,
    rules: Seq<VersionExclusion>,
    tags: Seq<TagWithHistory>,
) -> Seq<TagWithHistory> {
    tags.filter(|t: TagWithHistory| spec_excludes(name, rules, t.0.tag@))
}

/// How many of `tags` the set excludes, for the page's tag count.
pub fn excluded_count(set: &ExclusionSet, tags: &Vec<TagWithHistory>) -> (n: usize)
    ensures
        n == excluded_tags(set.name_view(), set.rules_view(), tags@).len(),
{
    let ghost pred = |t: TagWithHistory| spec_excludes(set.name_view(), set.rules_view(), t.0.tag@);
    let mut n: usize = 0;
    let mut i: usize = 0;
    while i < tags.len()
        invariant
            i <= tags.len(),
            pred == (|t: TagWithHistory| spec_excludes(set.name_view(), set.rules_view(), t.0.tag@)),
            n == tags@.take(i as int).filter(pred).len(),
            n <= i,
        decreases tags.len() - i,
    {
        proof {
            assert(tags@.take(i + 1) =~= tags@.take(i as int).push(tags@[i as int]));
            tags@.take(i as int).lemma_filter_push(tags@[i as int], pred);
        }
        if set.excludes(tags[i].0.tag.as_str()) {
            n = n + 1;
        }
        i = i + 1;
    }
    assert(tags@.take(tags.len() as int) =~= tags@);
    n
}

/// The badge a tag's row carries: whether the tag is assumed immutable.
pub fn tag_class(tag: &str) -> (c: &'static str)
    ensures
        c@ == spec_tag_class(tag@),
{
    if is_immutable(tag) {
        "immutable"
    } else {
        "floating"
    }
}

pub open spec fn spec_earlier_digests(history_len: nat) -> Option<Seq<char>> {
    if history_len > 1 {
        Some(
            decimal((history_len - 1) as nat) + if history_len == 2 {
                " earlier digest"@
            } else {
                " earlier digests"@
            },
        )
    } else {
        None
    }
}

/// The summary of a tag's earlier digests (all but the latest), when it
/// has any.
pub fn earlier_digests(history_len: usize) -> (r: Option<String>)
    ensures
        opt_view(r) == spec_earlier_digests(history_len as nat),
{
    if history_len > 1 {
        let mut s = decimal_string((history_len - 1) as u64);
        if history_len == 2 {
            s.append(" earlier digest");
        } else {
            s.append(" earlier digests");
        }
        Some(s)
    } else {
        None
    }
}

pub open spec fn spec_parsed_summary(v: TagVersionView) -> Seq<char> {
    v.version + match v.variant {
        Some(x) => " · "@ + x,
        None => Seq::empty(),
    } + match v.build {
        Some(b) => " +"@ + b,
        None => Seq::empty(),
    }
}

/// How a tag's row reads its version: the version, then ` · variant` and
/// ` +build` where it has them.
pub fn parsed_summary(v: &TagVersion) -> (s: String)
    ensures
        s@ == spec_parsed_summary(v@),
{
    let mut s = String::from_str(v.version.as_str());
    match &v.variant {
        Some(x) => {
            s.append(" · ");
            s.append(x.as_str());
        },
        None => {
            assert(s@ =~= s@ + Seq::<char>::empty());
        },
    }
    let ghost before = s@;
    match &v.build {
        Some(b) => {
            s.append(" +");
            s.append(b.as_str());
        },
        None => {
            assert(s@ =~= before + Seq::<char>::empty());
        },
    }
    s
}

/// The version a tag's row offers to exclude: the one it names, unless
/// something already excludes it.
pub fn exclude_offer(parsed: &Option<TagVersion>, excluded: bool) -> (offer: Option<String>)
    ensures
        opt_view(offer) == match parsed {
            Some(v) => if excluded {
                None
            } else {
                Some(v.version@)
            },
            None => None,
        },
{
    match parsed {
        Some(v) => if excluded {
            None
        } else {
            Some(v.version.clone())
        },
        None => None,
    }
}

// ---------------------------------------------------------------------
// The exclusions card
// ---------------------------------------------------------------------

pub open spec fn spec_note_cell(note: Option<String>) -> Seq<char> {
    match note {
        Some(n) => spec_escape_html(n@),
        None => "<span class=\"cell-secondary\">—</span>"@,
    }
}

/// The row of one rule: the version it covers, its note, when it was
/// added, and the button that removes it.
pub open spec fn spec_rule_row(rule: VersionExclusion, now: i64) -> Seq<char> {
    "<tr><td><code>"@ + spec_escape_html(rule.version@) + "</code></td><td>"@ + spec_note_cell(rule.note)
        + "</td><td class=\"cell-secondary\">"@ + spec_escape_html(spec_ago(now, Some(rule.created_at)))
        + "</td><td class=\"cell-actions\"><form class=\"inline-form\" action=\"/exclusion/"@
        + decimal(rule.id as nat) + "/remove\" method=\"post\">"@
        + "<button class=\"button button-small\" type=\"submit\" title=\"Let this version be matched again\">Include again</button></form></td></tr>"@
}

pub open spec fn spec_rule_rows(rules: Seq<VersionExclusion>, now: i64) -> Seq<char>
    decreases rules.len(),
{
    if rules.len() == 0 {
        Seq::empty()
    } else {
        spec_rule_rows(rules.drop_last(), now) + spec_rule_row(rules.last(), now)
    }
}

pub open spec fn spec_rule_table(rules: Seq<VersionExclusion>, now: i64) -> Seq<char> {
    if rules.len() == 0 {
        Seq::empty()
    } else {
        "<table class=\"data-table exclusion-table\"><thead><tr><th>Version</th><th>Note</th><th>Added</th><th></th></tr></thead><tbody>"@
            + spec_rule_rows(rules, now) + "</tbody></table>"@
    }
}

pub open spec fn spec_alias_note(name: Seq<char>) -> Seq<char> {
    if spec_publisher_alias(name, "0.0.0"@) {
        "<p class=\"cell-secondary\">Built-in for this publisher: "@ + spec_escape_html(LINUXSERVER_ALIAS@)
            + ".</p>"@
    } else {
        Seq::empty()
    }
}

/// The admin's version exclusions: what they are for, the publisher's
/// built-in rule where it has one, the rules in force, and a form to add
/// one by hand.
pub open spec fn spec_exclusions(repo: Repo, rules: Seq<VersionExclusion>, now: i64) -> Seq<char> {
    "<div class=\"card\" id=\"exclusions\"><h2>Excluded versions</h2><p class=\"cell-secondary\">"@
        + "Versions that look real but aren't releases of this image. Tags naming them stay tracked here but are left out of "@
        + "<code>/api/lookup</code> and <code>/api/events</code>, so consumers never pick them. A trailing <code>.*</code> excludes a whole family.</p>"@
        + spec_alias_note(repo.name@) + spec_rule_table(rules, now)
        + "<form class=\"add-repo-form exclusion-form\" action=\"/repo/"@ + decimal(repo.id as nat)
        + "/exclusions\" method=\"post\"><input type=\"text\" name=\"version\" placeholder=\"version (e.g. 20.04.1 or 14.3.*)\" pattern=\""@
        + spec_escape_html(RULE_PATTERN@)
        + "\" title=\"Digits and dots, optionally ending in .*\" required><input type=\"text\" name=\"note\" placeholder=\"note (optional)\" class=\"exclusion-note\">"@
        + "<button class=\"button\" type=\"submit\">Exclude version</button></form></div>"@
}

fn render_rule_row(rule: &VersionExclusion, now: i64) -> (r: String)
    ensures
        r@ == spec_rule_row(*rule, now),
{
    let mut r = String::from_str("<tr><td><code>");
    r.append(escape_html(rule.version.as_str()).as_str());
    r.append("</code></td><td>");
    match &rule.note {
        Some(n) => r.append(escape_html(n.as_str()).as_str()),
        None => r.append("<span class=\"cell-secondary\">—</span>"),
    }
    r.append("</td><td class=\"cell-secondary\">");
    r.append(escape_html(format_ago(now, Some(rule.created_at)).as_str()).as_str());
    r.append("</td><td class=\"cell-actions\"><form class=\"inline-form\" action=\"/exclusion/");
    r.append(decimal_string(rule.id).as_str());
    r.append("/remove\" method=\"post\">");
    r.append(
        "<button class=\"button button-small\" type=\"submit\" title=\"Let this version be matched again\">Include again</button></form></td></tr>",
    );
    r
}

fn render_rule_table(rules: &Vec<VersionExclusion>, now: i64) -> (r: String)
    ensures
        r@ == spec_rule_table(rules@, now),
{
    if rules.len() == 0 {
        return String::new();
    }
    let mut body = String::new();
    let mut i: usize = 0;
    while i < rules.len()
        invariant
            i <= rules@.len(),
            body@ == spec_rule_rows(rules@.take(i as int), now),
        decreases rules.len() - i,
    {
        proof {
            assert(rules@.take(i + 1).drop_last() =~= rules@.take(i as int));
        }
        body.append(render_rule_row(&rules[i], now).as_str());
        i = i + 1;
    }
    assert(rules@.take(rules.len() as int) =~= rules@);
    let mut r = String::from_str(
        "<table class=\"data-table exclusion-table\"><thead><tr><th>Version</th><th>Note</th><th>Added</th><th></th></tr></thead><tbody>",
    );
    r.append(body.as_str());
    r.append("</tbody></table>");
    r
}

fn render_alias_note(name: &str) -> (r: String)
    ensures
        r@ == spec_alias_note(name@),
{
    match publisher_alias(name, "0.0.0") {
        Some(why) => {
            let mut r = String::from_str("<p class=\"cell-secondary\">Built-in for this publisher: ");
            r.append(escape_html(why).as_str());
            r.append(".</p>");
            r
        },
        None => String::new(),
    }
}

/// The exclusions card of `repo`, whose rules are `rules`, with times
/// relative to `now`.
pub fn render_exclusions(repo: &Repo, rules: &Vec<VersionExclusion>, now: i64) -> (r: String)
    ensures
        r@ == spec_exclusions(*repo, rules@, now),
{
    let mut r = String::from_str(
        "<div class=\"card\" id=\"exclusions\"><h2>Excluded versions</h2><p class=\"cell-secondary\">",
    );
    r.append(
        "Versions that look real but aren't releases of this image. Tags naming them stay tracked here but are left out of ",
    );
    r.append(
        "<code>/api/lookup</code> and <code>/api/events</code>, so consumers never pick them. A trailing <code>.*</code> excludes a whole family.</p>",
    );
    r.append(render_alias_note(repo.name.as_str()).as_str());
    r.append(render_rule_table(rules, now).as_str());
    r.append("<form class=\"add-repo-form exclusion-form\" action=\"/repo/");
    r.append(decimal_string(repo.id).as_str());
    r.append(
        "/exclusions\" method=\"post\"><input type=\"text\" name=\"version\" placeholder=\"version (e.g. 20.04.1 or 14.3.*)\" pattern=\"",
    );
    r.append(escape_html(RULE_PATTERN).as_str());
    r.append(
        "\" title=\"Digits and dots, optionally ending in .*\" required><input type=\"text\" name=\"note\" placeholder=\"note (optional)\" class=\"exclusion-note\">",
    );
    r.append("<button class=\"button\" type=\"submit\">Exclude version</button></form></div>");
    r
}

// ---------------------------------------------------------------------
// Recent events
// ---------------------------------------------------------------------

/// A digest as the page shows it: shortened, with the full digest as its
/// title.
pub open spec fn spec_digest_code(digest: Seq<char>) -> Seq<char> {
    "<code class=\"digest\" title=\""@ + spec_escape_html(digest) + "\">"@ + spec_escape_html(
        spec_short_digest(digest),
    ) + "</code>"@
}

fn render_digest_code(digest: &str) -> (r: String)
    ensures
        r@ == spec_digest_code(digest@),
{
    let mut r = String::from_str("<code class=\"digest\" title=\"");
    r.append(escape_html(digest).as_str());
    r.append("\">");
    r.append(escape_html(format_short_digest(digest).as_str()).as_str());
    r.append("</code>");
    r
}

pub open spec fn spec_kind_badge(kind: EventKind) -> Seq<char> {
    match kind {
        EventKind::TagAdded => "<span class=\"badge badge-active\">added</span>"@,
        EventKind::TagMoved => "<span class=\"badge badge-floating\">moved</span>"@,
        EventKind::TagRemoved => "<span class=\"badge badge-error\">removed</span>"@,
    }
}

pub open spec fn spec_feed_badge(name: Seq<char>, rules: Seq<VersionExclusion>, tag: Seq<char>) -> Seq<char> {
    if spec_excludes(name, rules, tag) {
        " <span class=\"badge badge-excluded\" title=\"Not in /api/events: this version is excluded\">excluded</span>"@
    } else {
        Seq::empty()
    }
}

pub open spec fn spec_moved_from(previous: Option<String>) -> Seq<char> {
    match previous {
        Some(from) => spec_digest_code(from@) + " → "@,
        None => Seq::empty(),
    }
}

pub open spec fn spec_event_digest(digest: Option<String>) -> Seq<char> {
    match digest {
        Some(d) => spec_digest_code(d@),
        None => "<span class=\"cell-secondary\">—</span>"@,
    }
}

pub open spec fn spec_event_digests(previous: Option<String>, digest: Option<String>) -> Seq<char> {
    spec_moved_from(previous) + spec_event_digest(digest)
}

/// The row of one event: when it happened, what happened, to which tag
/// (flagged when the feed leaves it out), and the digests involved.
pub open spec fn spec_event_row(e: Event, name: Seq<char>, rules: Seq<VersionExclusion>, now: i64) -> Seq<char> {
    "<tr><td class=\"cell-secondary\">"@ + spec_escape_html(spec_ago(now, Some(e.at))) + "</td><td>"@
        + spec_kind_badge(e.kind) + "</td><td><code>"@ + spec_escape_html(e.tag@) + "</code>"@
        + spec_feed_badge(name, rules, e.tag@) + "</td><td>"@ + spec_event_digests(
        e.previous_digest,
        e.digest,
    ) + "</td></tr>"@
}

fn render_event_digests(previous: &Option<String>, digest: &Option<String>) -> (r: String)
    ensures
        r@ == spec_event_digests(*previous, *digest),
{
    let mut r = String::new();
    match previous {
        Some(from) => {
            r.append(render_digest_code(from.as_str()).as_str());
            r.append(" → ");
        },
        None => {},
    }
    let ghost first = r@;
    match digest {
        Some(d) => r.append(render_digest_code(d.as_str()).as_str()),
        None => r.append("<span class=\"cell-secondary\">—</span>"),
    }
    assert(first =~= spec_moved_from(*previous));
    r
}

fn render_event_row(e: &Event, set: &ExclusionSet, now: i64) -> (r: String)
    ensures
        r@ == spec_event_row(*e, set.name_view(), set.rules_view(), now),
{
    let mut r = String::from_str("<tr><td class=\"cell-secondary\">");
    r.append(escape_html(format_ago(now, Some(e.at)).as_str()).as_str());
    r.append("</td><td>");
    match e.kind {
        EventKind::TagAdded => r.append("<span class=\"badge badge-active\">added</span>"),
        EventKind::TagMoved => r.append("<span class=\"badge badge-floating\">moved</span>"),
        EventKind::TagRemoved => r.append("<span class=\"badge badge-error\">removed</span>"),
    }
    r.append("</td><td><code>");
    r.append(escape_html(e.tag.as_str()).as_str());
    r.append("</code>");
    let ghost before = r@;
    if set.excludes(e.tag.as_str()) {
        r.append(
            " <span class=\"badge badge-excluded\" title=\"Not in /api/events: this version is excluded\">excluded</span>",
        );
    } else {
        assert(r@ =~= before + Seq::<char>::empty());
    }
    r.append("</td><td>");
    r.append(render_event_digests(&e.previous_digest, &e.digest).as_str());
    r.append("</td></tr>");
    r
}

pub open spec fn spec_event_rows(
    events: Seq<Event>,
    name: Seq<char>,
    rules: Seq<VersionExclusion>,
    now: i64,
) -> Seq<char>
    decreases events.len(),
{
    if events.len() == 0 {
        Seq::empty()
    } else {
        spec_event_rows(events.drop_last(), name, rules, now) + spec_event_row(
            events.last(),
            name,
            rules,
            now,
        )
    }
}

/// The recent events card, absent when there are no events.
pub open spec fn spec_events_card(
    events: Seq<Event>,
    name: Seq<char>,
    rules: Seq<VersionExclusion>,
    now: i64,
) -> Seq<char> {
    if events.len() == 0 {
        Seq::empty()
    } else {
        "<div class=\"card\"><h2>Recent events</h2><p class=\"cell-secondary\">What changed since the first refresh, newest first. Consumers read the same rows from <code>/api/events</code>.</p>"@
            + "<table class=\"data-table\"><thead><tr><th>When</th><th>Event</th><th>Tag</th><th>Digest</th></tr></thead><tbody>"@
            + spec_event_rows(events, name, rules, now) + "</tbody></table></div>"@
    }
}

fn render_events_card(events: &Vec<Event>, set: &ExclusionSet, now: i64) -> (r: String)
    ensures
        r@ == spec_events_card(events@, set.name_view(), set.rules_view(), now),
{
    if events.len() == 0 {
        return String::new();
    }
    let mut body = String::new();
    let mut i: usize = 0;
    while i < events.len()
        invariant
            i <= events@.len(),
            body@ == spec_event_rows(events@.take(i as int), set.name_view(), set.rules_view(), now),
        decreases events.len() - i,
    {
        proof {
            assert(events@.take(i + 1).drop_last() =~= events@.take(i as int));
        }
        body.append(render_event_row(&events[i], set, now).as_str());
        i = i + 1;
    }
    assert(events@.take(events.len() as int) =~= events@);
    let mut r = String::from_str(
        "<div class=\"card\"><h2>Recent events</h2><p class=\"cell-secondary\">What changed since the first refresh, newest first. Consumers read the same rows from <code>/api/events</code>.</p>",
    );
    r.append(
        "<table class=\"data-table\"><thead><tr><th>When</th><th>Event</th><th>Tag</th><th>Digest</th></tr></thead><tbody>",
    );
    r.append(body.as_str());
    r.append("</tbody></table></div>");
    r
}

// ---------------------------------------------------------------------
// Tags
// ---------------------------------------------------------------------

/// The title of the badge that says why a tag is excluded: the admin's
/// rule, or the publisher's.
pub open spec fn spec_exclusion_title(
    name: Seq<char>,
    rules: Seq<VersionExclusion>,
    tag: Seq<char>,
) -> Option<Seq<char>> {
    match spec_rule_for(name, rules, tag) {
        None => None,
        Some(Some(i)) => Some(rule_description(rules[i])),
        Some(None) => Some("Excluded: "@ + LINUXSERVER_ALIAS@),
    }
}

pub open spec fn spec_row_open(excluded: bool) -> Seq<char> {
    if excluded {
        "<tr class=\"tag-excluded\">"@
    } else {
        "<tr>"@
    }
}

pub open spec fn spec_gone_badge(active: bool) -> Seq<char> {
    if active {
        Seq::empty()
    } else {
        " <span class=\"badge badge-error\" title=\"No longer present in the registry's tag list\">gone</span>"@
    }
}

pub open spec fn spec_rule_badge(title: Option<Seq<char>>) -> Seq<char> {
    match title {
        Some(t) => " <span class=\"badge badge-excluded\" title=\""@ + spec_escape_html(t) + "\">excluded</span>"@,
        None => Seq::empty(),
    }
}

pub open spec fn spec_tag_class(tag: Seq<char>) -> Seq<char> {
    if spec_is_immutable(tag) {
        "immutable"@
    } else {
        "floating"@
    }
}

pub open spec fn spec_class_badge(tag: Seq<char>) -> Seq<char> {
    "<span class=\"badge badge-"@ + spec_tag_class(tag) + "\">"@ + spec_tag_class(tag) + "</span>"@
}

pub open spec fn spec_version_note(parsed: Option<TagVersionView>) -> Seq<char> {
    match parsed {
        Some(v) => " <span class=\"cell-secondary\" title=\"Version, variant and build as consumers read this tag\">"@
            + spec_escape_html(spec_parsed_summary(v)) + "</span>"@,
        None => Seq::empty(),
    }
}

pub open spec fn spec_latest_digest(history: Seq<TagHistory>) -> Seq<char> {
    if history.len() > 0 {
        spec_digest_code(history[0].digest@)
    } else {
        "<span class=\"cell-secondary\">not yet fetched</span>"@
    }
}

pub open spec fn latest_first_seen(history: Seq<TagHistory>) -> Option<i64> {
    if history.len() > 0 {
        Some(history[0].first_seen_at)
    } else {
        None
    }
}

pub open spec fn latest_last_seen(history: Seq<TagHistory>) -> Option<i64> {
    if history.len() > 0 {
        Some(history[0].last_seen_at)
    } else {
        None
    }
}

/// One earlier digest: the digest and the span of time it was seen.
pub open spec fn spec_history_item(h: TagHistory, now: i64) -> Seq<char> {
    "<li>"@ + spec_digest_code(h.digest@) + " — "@ + spec_escape_html(spec_ago(now, Some(h.first_seen_at)))
        + " to "@ + spec_escape_html(spec_ago(now, Some(h.last_seen_at))) + "</li>"@
}

pub open spec fn spec_history_items(history: Seq<TagHistory>, now: i64) -> Seq<char>
    decreases history.len(),
{
    if history.len() == 0 {
        Seq::empty()
    } else {
        spec_history_items(history.drop_last(), now) + spec_history_item(history.last(), now)
    }
}

/// A tag's earlier digests (all but the latest) behind a summary, or a
/// dash when it has none.
pub open spec fn spec_history_cell(history: Seq<TagHistory>, now: i64) -> Seq<char> {
    match spec_earlier_digests(history.len()) {
        Some(summary) => "<details class=\"history-details\"><summary>"@ + summary + "</summary><ul>"@
            + spec_history_items(history.subrange(1, history.len() as int), now) + "</ul></details>"@,
        None => "<span class=\"cell-secondary\">—</span>"@,
    }
}

/// The version a tag's row offers to exclude.
pub open spec fn spec_offer(name: Seq<char>, rules: Seq<VersionExclusion>, tag: Seq<char>) -> Option<
    Seq<char>,
> {
    match spec_parse_version(tag) {
        Some(v) => if spec_excludes(name, rules, tag) {
            None
        } else {
            Some(v.version)
        },
        None => None,
    }
}

pub open spec fn spec_offer_form(repo_id: u64, offer: Option<Seq<char>>) -> Seq<char> {
    match offer {
        Some(v) => "<form class=\"inline-form\" action=\"/repo/"@ + decimal(repo_id as nat)
            + "/exclusions\" method=\"post\"><input type=\"hidden\" name=\"version\" value=\""@
            + spec_escape_html(v) + "\"><button class=\"button button-small\" type=\"submit\" title=\""@
            + spec_escape_html("Exclude version "@ + v + " from version matching"@)
            + "\">Exclude</button></form>"@,
        None => Seq::empty(),
    }
}

/// The cell naming a tag, flagged when it is gone from the registry or
/// excluded (with the reason).
pub open spec fn spec_name_cell(tag: Tag, name: Seq<char>, rules: Seq<VersionExclusion>) -> Seq<char> {
    "<td><code>"@ + spec_escape_html(tag.tag@) + "</code>"@ + spec_gone_badge(tag.active)
        + spec_rule_badge(spec_exclusion_title(name, rules, tag.tag@)) + "</td>"@
}

/// The cell saying whether a tag floats, and the version it names.
pub open spec fn spec_class_cell(tag: Seq<char>) -> Seq<char> {
    "<td>"@ + spec_class_badge(tag) + spec_version_note(spec_parse_version(tag)) + "</td>"@
}

/// The cells of a tag's latest digest, when that was first and last seen,
/// and when the tag was first seen.
pub open spec fn spec_digest_cells(tag: Tag, history: Seq<TagHistory>, now: i64) -> Seq<char> {
    "<td>"@ + spec_latest_digest(history) + "</td><td class=\"cell-secondary\">"@
        + spec_escape_html(spec_ago(now, latest_first_seen(history)))
        + "</td><td class=\"cell-secondary\">"@ + spec_escape_html(
        spec_ago(now, latest_last_seen(history)),
    ) + "</td><td class=\"cell-secondary\">"@ + spec_escape_html(spec_ago(now, Some(tag.first_seen_at)))
        + "</td>"@
}

/// The row of one tag of the repo `repo_id`: its name (flagged when gone
/// from the registry or excluded, with the reason), whether it floats and
/// the version it names, its latest digest and when that was first and
/// last seen, when the tag was first seen, its earlier digests, and the
/// button that excludes its version.
pub open spec fn spec_tag_row(
    repo_id: u64,
    tag: Tag,
    history: Seq<TagHistory>,
    name: Seq<char>,
    rules: Seq<VersionExclusion>,
    now: i64,
) -> Seq<char> {
    spec_row_open(spec_excludes(name, rules, tag.tag@)) + spec_name_cell(tag, name, rules)
        + spec_class_cell(tag.tag@) + spec_digest_cells(tag, history, now) + "<td>"@
        + spec_history_cell(history, now) + "</td><td class=\"cell-actions\">"@
        + spec_offer_form(repo_id, spec_offer(name, rules, tag.tag@)) + "</td></tr>"@
}

/// A tag's row shows its current digest, the newest of its history (which
/// is kept newest first), as its digest cell: right after the tag's name
/// and class cells comes a cell opening with that digest.
pub proof fn lemma_tag_row_shows_latest_digest(
    repo_id: u64,
    tag: Tag,
    history: Seq<TagHistory>,
    name: Seq<char>,
    rules: Seq<VersionExclusion>,
    now: i64,
)
    requires
        history.len() > 0,
    ensures
        ({
            let row = spec_tag_row(repo_id, tag, history, name, rules, now);
            let pre = spec_row_open(spec_excludes(name, rules, tag.tag@)) + spec_name_cell(tag, name, rules)
                + spec_class_cell(tag.tag@);
            let cell = "<td>"@ + spec_digest_code(history[0].digest@);
            row.subrange(pre.len() as int, (pre.len() + cell.len()) as int) == cell
        }),
{
    let row = spec_tag_row(repo_id, tag, history, name, rules, now);
    let pre = spec_row_open(spec_excludes(name, rules, tag.tag@)) + spec_name_cell(tag, name, rules)
        + spec_class_cell(tag.tag@);
    let cell = "<td>"@ + spec_digest_code(history[0].digest@);
    let dc = spec_digest_cells(tag, history, now);
    let pd = pre + dc;
    assert(row.subrange(0, pd.len() as int) =~= pd);
    assert(dc.subrange(0, cell.len() as int) =~= cell);
    assert(row.subrange(pre.len() as int, (pre.len() + cell.len()) as int) =~= cell) by {
        assert forall|i: int| 0 <= i < cell.len() implies row.subrange(
            pre.len() as int,
            (pre.len() + cell.len()) as int,
        )[i] == cell[i] by {
            assert(row[pre.len() + i] == pd[pre.len() + i]);
            assert(pd[pre.len() + i] == dc[i]);
            assert(dc[i] == dc.subrange(0, cell.len() as int)[i]);
        }
    }
}

fn render_rule_badge(rule: &Option<Exclusion>) -> (r: String)
    ensures
        r@ == spec_rule_badge(
            match *rule {
                Some(x) => Some(
                    match x {
                        Exclusion::Rule(v) => rule_description(*v),
                        Exclusion::Alias(why) => "Excluded: "@ + why@,
                    },
                ),
                None => None,
            },
        ),
{
    match rule {
        Some(x) => {
            let mut r = String::from_str(" <span class=\"badge badge-excluded\" title=\"");
            r.append(escape_html(x.describe().as_str()).as_str());
            r.append("\">excluded</span>");
            r
        },
        None => String::new(),
    }
}

fn render_version_note(parsed: &Option<TagVersion>) -> (r: String)
    ensures
        r@ == spec_version_note(parsed_view_of(*parsed)),
{
    match parsed {
        Some(v) => {
            let mut r = String::from_str(
                " <span class=\"cell-secondary\" title=\"Version, variant and build as consumers read this tag\">",
            );
            r.append(escape_html(parsed_summary(v).as_str()).as_str());
            r.append("</span>");
            r
        },
        None => String::new(),
    }
}

pub open spec fn parsed_view_of(p: Option<TagVersion>) -> Option<TagVersionView> {
    match p {
        Some(v) => Some(v@),
        None => None,
    }
}

fn render_history_cell(history: &Vec<TagHistory>, now: i64) -> (r: String)
    ensures
        r@ == spec_history_cell(history@, now),
{
    match earlier_digests(history.len()) {
        Some(summary) => {
            let mut items = String::new();
            let ghost rest = history@.subrange(1, history@.len() as int);
            let mut i: usize = 1;
            while i < history.len()
                invariant
                    1 <= i <= history@.len(),
                    rest == history@.subrange(1, history@.len() as int),
                    items@ == spec_history_items(rest.take(i - 1), now),
                decreases history.len() - i,
            {
                proof {
                    assert(rest.take(i as int).drop_last() =~= rest.take(i - 1));
                    assert(rest.take(i as int).last() == history@[i as int]);
                }
                let h = &history[i];
                let mut item = String::from_str("<li>");
                item.append(render_digest_code(h.digest.as_str()).as_str());
                item.append(" — ");
                item.append(escape_html(format_ago(now, Some(h.first_seen_at)).as_str()).as_str());
                item.append(" to ");
                item.append(escape_html(format_ago(now, Some(h.last_seen_at)).as_str()).as_str());
                item.append("</li>");
                items.append(item.as_str());
                i = i + 1;
            }
            assert(rest.take(history@.len() - 1) =~= rest);
            let mut r = String::from_str("<details class=\"history-details\"><summary>");
            r.append(summary.as_str());
            r.append("</summary><ul>");
            r.append(items.as_str());
            r.append("</ul></details>");
            r
        },
        None => String::from_str("<span class=\"cell-secondary\">—</span>"),
    }
}

fn render_offer_form(repo_id: u64, offer: &Option<String>) -> (r: String)
    ensures
        r@ == spec_offer_form(repo_id, opt_view(*offer)),
{
    match offer {
        Some(v) => {
            let mut r = String::from_str("<form class=\"inline-form\" action=\"/repo/");
            r.append(decimal_string(repo_id).as_str());
            r.append("/exclusions\" method=\"post\"><input type=\"hidden\" name=\"version\" value=\"");
            r.append(escape_html(v.as_str()).as_str());
            r.append("\"><button class=\"button button-small\" type=\"submit\" title=\"");
            let mut title = String::from_str("Exclude version ");
            title.append(v.as_str());
            title.append(" from version matching");
            r.append(escape_html(title.as_str()).as_str());
            r.append("\">Exclude</button></form>");
            r
        },
        None => String::new(),
    }
}

fn render_name_cell(tag: &Tag, set: &ExclusionSet) -> (r: String)
    ensures
        r@ == spec_name_cell(*tag, set.name_view(), set.rules_view()),
{
    let mut r = String::from_str("<td><code>");
    r.append(escape_html(tag.tag.as_str()).as_str());
    r.append("</code>");
    let ghost before = r@;
    if !tag.active {
        r.append(
            " <span class=\"badge badge-error\" title=\"No longer present in the registry's tag list\">gone</span>",
        );
    } else {
        assert(r@ =~= before + Seq::<char>::empty());
    }
    let rule = set.rule_for(tag.tag.as_str());
    let badge = render_rule_badge(&rule);
    assert(badge@ == spec_rule_badge(spec_exclusion_title(set.name_view(), set.rules_view(), tag.tag@)));
    r.append(badge.as_str());
    r.append("</td>");
    r
}

fn render_class_cell(tag: &str) -> (r: String)
    ensures
        r@ == spec_class_cell(tag@),
{
    let class = tag_class(tag);
    let mut badge = String::from_str("<span class=\"badge badge-");
    badge.append(class);
    badge.append("\">");
    badge.append(class);
    badge.append("</span>");
    let mut r = String::from_str("<td>");
    r.append(badge.as_str());
    r.append(render_version_note(&parse_version(tag)).as_str());
    r.append("</td>");
    r
}

fn render_digest_cells(tag: &Tag, history: &Vec<TagHistory>, now: i64) -> (r: String)
    ensures
        r@ == spec_digest_cells(*tag, history@, now),
{
    let mut r = String::from_str("<td>");
    let (latest_first, latest_last) = if history.len() > 0 {
        r.append(render_digest_code(history[0].digest.as_str()).as_str());
        (Some(history[0].first_seen_at), Some(history[0].last_seen_at))
    } else {
        r.append("<span class=\"cell-secondary\">not yet fetched</span>");
        (None, None)
    };
    r.append("</td><td class=\"cell-secondary\">");
    r.append(escape_html(format_ago(now, latest_first).as_str()).as_str());
    r.append("</td><td class=\"cell-secondary\">");
    r.append(escape_html(format_ago(now, latest_last).as_str()).as_str());
    r.append("</td><td class=\"cell-secondary\">");
    r.append(escape_html(format_ago(now, Some(tag.first_seen_at)).as_str()).as_str());
    r.append("</td>");
    r
}

/// The row of one tag of the repo `repo_id`, whose digests are `history`
/// (newest first), with times relative to `now`.
pub fn render_tag_row(
    repo_id: u64,
    tag: &Tag,
    history: &Vec<TagHistory>,
    set: &ExclusionSet,
    now: i64,
) -> (r: String)
    ensures
        r@ == spec_tag_row(repo_id, *tag, history@, set.name_view(), set.rules_view(), now),
{
    let excluded = set.excludes(tag.tag.as_str());
    let offer = exclude_offer(&parse_version(tag.tag.as_str()), excluded);
    let mut r = if excluded {
        String::from_str("<tr class=\"tag-excluded\">")
    } else {
        String::from_str("<tr>")
    };
    r.append(render_name_cell(tag, set).as_str());
    r.append(render_class_cell(tag.tag.as_str()).as_str());
    r.append(render_digest_cells(tag, history, now).as_str());
    r.append("<td>");
    r.append(render_history_cell(history, now).as_str());
    r.append("</td><td class=\"cell-actions\">");
    r.append(render_offer_form(repo_id, &offer).as_str());
    r.append("</td></tr>");
    r
}

// ---------------------------------------------------------------------
// The refresh state and the whole page
// ---------------------------------------------------------------------

pub open spec fn state_last_checked(state: Option<RepoState>) -> Option<i64> {
    match state {
        Some(s) => s.last_checked_at,
        None => None,
    }
}

pub open spec fn state_last_attempted(state: Option<RepoState>) -> Option<i64> {
    match state {
        Some(s) => s.last_attempted_at,
        None => None,
    }
}

pub open spec fn state_failures(state: Option<RepoState>) -> u32 {
    match state {
        Some(s) => s.consecutive_failures,
        None => 0,
    }
}

/// The last refresh's error, with the failure streak when it is longer
/// than one; absent when the last refresh did not fail.
pub open spec fn spec_error_alert(state: Option<RepoState>) -> Seq<char> {
    match state {
        Some(s) => match s.last_error {
            Some(e) => "<div class=\"alert alert-danger\"><strong>Last refresh failed</strong>"@ + if s.consecutive_failures
                > 1 {
                " ("@ + decimal(s.consecutive_failures as nat) + " consecutive failures)"@
            } else {
                Seq::empty()
            } + "<pre>"@ + spec_escape_html(e@) + "</pre></div>"@,
            None => Seq::empty(),
        },
        None => Seq::empty(),
    }
}

/// The refresh state: when the repo was last refreshed and attempted, its
/// failure streak, and how many tags it tracks (and how many of them are
/// excluded).
pub open spec fn spec_state_card(state: Option<RepoState>, tags: nat, excluded: nat, now: i64) -> Seq<char> {
    "<div class=\"card\"><div class=\"state-grid\"><div class=\"stat\"><div class=\"stat-label\">Last refreshed</div><div class=\"stat-value\">"@
        + spec_escape_html(spec_ago(now, state_last_checked(state)))
        + "</div></div><div class=\"stat\"><div class=\"stat-label\">Last attempted</div><div class=\"stat-value\">"@
        + spec_escape_html(spec_ago(now, state_last_attempted(state)))
        + "</div></div><div class=\"stat\"><div class=\"stat-label\">Consecutive failures</div><div class=\"stat-value\">"@
        + decimal(state_failures(state) as nat)
        + "</div></div><div class=\"stat\"><div class=\"stat-label\">Tags tracked</div><div class=\"stat-value\">"@
        + decimal(tags) + if excluded > 0 {
        " <span class=\"cell-secondary\">("@ + decimal(excluded) + " excluded)</span>"@
    } else {
        Seq::empty()
    } + "</div></div></div></div>"@
}

pub open spec fn spec_tag_rows(
    repo_id: u64,
    tags: Seq<TagWithHistory>,
    name: Seq<char>,
    rules: Seq<VersionExclusion>,
    now: i64,
) -> Seq<char>
    decreases tags.len(),
{
    if tags.len() == 0 {
        Seq::empty()
    } else {
        spec_tag_rows(repo_id, tags.drop_last(), name, rules, now) + spec_tag_row(
            repo_id,
            tags.last().0,
            tags.last().1@,
            name,
            rules,
            now,
        )
    }
}

/// The tag table, or a hint to refresh when the repo has no tags yet.
pub open spec fn spec_tags_section(
    repo_id: u64,
    tags: Seq<TagWithHistory>,
    name: Seq<char>,
    rules: Seq<VersionExclusion>,
    now: i64,
) -> Seq<char> {
    if tags.len() == 0 {
        "<div class=\"empty-state\"><h2>No tags yet</h2><p>This repo hasn't been refreshed yet. Use &quot;Refresh now&quot; to fetch it immediately.</p></div>"@
    } else {
        "<table class=\"data-table\"><thead><tr><th>Tag</th><th>Class</th><th>Digest</th><th>Digest since</th><th>Last verified</th><th>First seen</th><th>History</th><th></th></tr></thead><tbody>"@
            + spec_tag_rows(repo_id, tags, name, rules, now) + "</tbody></table>"@
    }
}

/// What the poller changes on a repo's page: the last error, the refresh
/// state, the recent events and the tags.
pub open spec fn spec_repo_detail(
    repo_id: u64,
    state: Option<RepoState>,
    tags: Seq<TagWithHistory>,
    name: Seq<char>,
    rules: Seq<VersionExclusion>,
    events: Seq<Event>,
    now: i64,
) -> Seq<char> {
    spec_error_alert(state) + spec_state_card(
        state,
        tags.len(),
        excluded_tags(name, rules, tags).len(),
        now,
    ) + spec_events_card(events, name, rules, now) + spec_tags_section(repo_id, tags, name, rules, now)
}

fn render_error_alert(state: &Option<RepoState>) -> (r: String)
    ensures
        r@ == spec_error_alert(*state),
{
    match state {
        Some(s) => match &s.last_error {
            Some(e) => {
                let mut r = String::from_str(
                    "<div class=\"alert alert-danger\"><strong>Last refresh failed</strong>",
                );
                let ghost before = r@;
                if s.consecutive_failures > 1 {
                    r.append(" (");
                    r.append(decimal_string(s.consecutive_failures as u64).as_str());
                    r.append(" consecutive failures)");
                } else {
                    assert(r@ =~= before + Seq::<char>::empty());
                }
                r.append("<pre>");
                r.append(escape_html(e.as_str()).as_str());
                r.append("</pre></div>");
                r
            },
            None => String::new(),
        },
        None => String::new(),
    }
}

fn render_state_card(state: &Option<RepoState>, tags: usize, excluded: usize, now: i64) -> (r: String)
    ensures
        r@ == spec_state_card(*state, tags as nat, excluded as nat, now),
{
    let (last_checked, last_attempted, failures) = match state {
        Some(s) => (s.last_checked_at, s.last_attempted_at, s.consecutive_failures),
        None => (None, None, 0),
    };
    let mut r = String::from_str(
        "<div class=\"card\"><div class=\"state-grid\"><div class=\"stat\"><div class=\"stat-label\">Last refreshed</div><div class=\"stat-value\">",
    );
    r.append(escape_html(format_ago(now, last_checked).as_str()).as_str());
    r.append(
        "</div></div><div class=\"stat\"><div class=\"stat-label\">Last attempted</div><div class=\"stat-value\">",
    );
    r.append(escape_html(format_ago(now, last_attempted).as_str()).as_str());
    r.append(
        "</div></div><div class=\"stat\"><div class=\"stat-label\">Consecutive failures</div><div class=\"stat-value\">",
    );
    r.append(decimal_string(failures as u64).as_str());
    r.append(
        "</div></div><div class=\"stat\"><div class=\"stat-label\">Tags tracked</div><div class=\"stat-value\">",
    );
    r.append(decimal_string(tags as u64).as_str());
    let ghost before = r@;
    if excluded > 0 {
        r.append(" <span class=\"cell-secondary\">(");
        r.append(decimal_string(excluded as u64).as_str());
        r.append(" excluded)</span>");
    } else {
        assert(r@ =~= before + Seq::<char>::empty());
    }
    r.append("</div></div></div></div>");
    r
}

fn render_tags_section(repo_id: u64, tags: &Vec<TagWithHistory>, set: &ExclusionSet, now: i64) -> (r: String)
    ensures
        r@ == spec_tags_section(repo_id, tags@, set.name_view(), set.rules_view(), now),
{
    if tags.len() == 0 {
        return String::from_str(
            "<div class=\"empty-state\"><h2>No tags yet</h2><p>This repo hasn't been refreshed yet. Use &quot;Refresh now&quot; to fetch it immediately.</p></div>",
        );
    }
    let mut body = String::new();
    let mut i: usize = 0;
    while i < tags.len()
        invariant
            i <= tags@.len(),
            body@ == spec_tag_rows(repo_id, tags@.take(i as int), set.name_view(), set.rules_view(), now),
        decreases tags.len() - i,
    {
        proof {
            assert(tags@.take(i + 1).drop_last() =~= tags@.take(i as int));
        }
        body.append(render_tag_row(repo_id, &tags[i].0, &tags[i].1, set, now).as_str());
        i = i + 1;
    }
    assert(tags@.take(tags.len() as int) =~= tags@);
    let mut r = String::from_str(
        "<table class=\"data-table\"><thead><tr><th>Tag</th><th>Class</th><th>Digest</th><th>Digest since</th><th>Last verified</th><th>First seen</th><th>History</th><th></th></tr></thead><tbody>",
    );
    r.append(body.as_str());
    r.append("</tbody></table>");
    r
}

/// What the poller changes on the page of the repo `repo_id`, with times
/// relative to `now`: `tags` with their digests (newest first), `set` the
/// repo's exclusions, `events` its recent events.
pub fn render_repo_detail(
    repo_id: u64,
    state: &Option<RepoState>,
    tags: &Vec<TagWithHistory>,
    set: &ExclusionSet,
    events: &Vec<Event>,
    now: i64,
) -> (r: String)
    ensures
        r@ == spec_repo_detail(repo_id, *state, tags@, set.name_view(), set.rules_view(), events@, now),
{
    let excluded = excluded_count(set, tags);
    let mut r = render_error_alert(state);
    r.append(render_state_card(state, tags.len(), excluded, now).as_str());
    r.append(render_events_card(events, set, now).as_str());
    r.append(render_tags_section(repo_id, tags, set, now).as_str());
    r
}

/// The page of a repo: its heading, its exclusions, and what the poller
/// changes, which re-renders every few seconds.
pub open spec fn spec_repo_page(
    repo: Repo,
    state: Option<RepoState>,
    tags: Seq<TagWithHistory>,
    rules: Seq<VersionExclusion>,
    events: Seq<Event>,
    now: i64,
) -> Seq<char> {
    spec_page(
        repo.registry@ + "/"@ + repo.name@,
        "repos"@,
        "repo-detail"@,
        spec_render_heading(repo) + spec_exclusions(repo, rules, now)
            + "<div id=\"repo-detail\" hx-get=\"/fragments/repo/"@ + decimal(repo.id as nat)
            + "\" hx-trigger=\"every 10s\" hx-swap=\"morph:innerHTML\">"@ + spec_repo_detail(
            repo.id,
            state,
            tags,
            repo.name@,
            rules,
            events,
            now,
        ) + "</div>"@,
    )
}

/// The page of `repo`, whose exclusion rules are `rules`, with times
/// relative to `now`.
pub fn render_repo_page(
    repo: &Repo,
    state: &Option<RepoState>,
    tags: &Vec<TagWithHistory>,
    rules: Vec<VersionExclusion>,
    events: &Vec<Event>,
    now: i64,
) -> (r: String)
    ensures
        r@ == spec_repo_page(*repo, *state, tags@, rules@, events@, now),
{
    let set = ExclusionSet::new(repo.name.as_str(), rules);
    let mut title = String::from_str(repo.registry.as_str());
    title.append("/");
    title.append(repo.name.as_str());
    let mut content = render_heading(repo);
    content.append(render_exclusions(repo, set.rules(), now).as_str());
    content.append("<div id=\"repo-detail\" hx-get=\"/fragments/repo/");
    content.append(decimal_string(repo.id).as_str());
    content.append("\" hx-trigger=\"every 10s\" hx-swap=\"morph:innerHTML\">");
    content.append(render_repo_detail(repo.id, state, tags, &set, events, now).as_str());
    content.append("</div>");
    page(title.as_str(), "repos", "repo-detail", content.as_str())
}

} // verus!
