use watchtower::db::repo::{Repo, RepoEgg};
use watchtower::db::repo_state::RepoState;
use watchtower::db::tag::Tag;
use watchtower::db::tag_history::TagHistory;
use watchtower::db::version_exclusion::{ExclusionSet, VersionExclusion};
use watchtower::poller::classify::parse_version;
use watchtower::web::api::{default_event_limit, hydrate, EventsQuery};
use watchtower::db::event::{Event, EventKind};
use watchtower::web::formatting::{
    decimal_string, format_ago, format_relative_delta, format_relative_time, format_relative_time_checked,
    format_short_digest,
};
use watchtower::web::header::{page, render, render_heading, scripts, stylesheet_link};
use watchtower::web::repo_detail::{
    earlier_digests, exclude_offer, excluded_count, parsed_summary, render_exclusions, render_repo_detail,
    render_repo_page, render_tag_row, tag_class,
};
use watchtower::web::webhook_debug::{render_event_row, render_webhook_list};
use watchtower::web::repos::{gone_tags, render_repo_row, render_repo_table, render_repos_page, repo_health, RepoRow};

fn tag(id: u64, name: &str) -> Tag {
    Tag { id, repo_id: 1, tag: name.to_string(), active: true, first_seen_at: 10, last_seen_at: 20 }
}

fn history(digest: &str) -> TagHistory {
    TagHistory { tag_id: 1, digest: digest.to_string(), first_seen_at: 10, last_seen_at: 20 }
}

fn rule(version: &str) -> VersionExclusion {
    VersionExclusion { id: 1, repo_id: 1, version: version.to_string(), note: None, created_at: 0 }
}

fn repo(name: &str) -> Repo {
    Repo { id: 42, registry: "lscr.io".to_string(), name: name.to_string(), active: true }
}

#[test]
fn digests_are_shortened_to_twelve_hex_characters() {
    assert_eq!(format_short_digest("sha256:71388a4556aabbccddeeff"), "71388a4556aa");
    assert_eq!(format_short_digest("abc"), "abc");
    assert_eq!(format_short_digest("md5:0123456789abcdef"), "md5:01234567");
}

#[test]
fn relative_times_round_down_to_the_largest_unit() {
    assert_eq!(decimal_string(0), "0");
    assert_eq!(decimal_string(1234567890), "1234567890");
    assert_eq!(format_relative_delta(-1), "in the future");
    assert_eq!(format_relative_delta(59), "just now");
    assert_eq!(format_relative_delta(60), "1m ago");
    assert_eq!(format_relative_delta(3599), "59m ago");
    assert_eq!(format_relative_delta(3600), "1h ago");
    assert_eq!(format_relative_delta(47 * 3600 + 3599), "47h ago");
    assert_eq!(format_relative_delta(48 * 3600), "2d ago");
    assert_eq!(format_relative_time(None), "never");
    assert!(format_relative_time(Some(0)).ends_with("d ago"));
    assert_eq!(format_relative_time_checked(None).as_deref(), Some("never"));
    assert!(format_relative_time_checked(Some(0)).unwrap().ends_with("d ago"));
    assert_eq!(format_relative_time_checked(Some(i64::MAX)), None);
}

#[test]
fn the_page_shell_escapes_what_it_is_given() {
    assert_eq!(stylesheet_link(), r#"<link rel="stylesheet" href="/res/styles.css">"#);
    assert_eq!(
        scripts(),
        r#"<script src="/res/htmx.min.js"></script><script src="/res/idiomorph.min.js"></script><script src="/res/idiomorph-ext.min.js"></script>"#
    );
    let escaped = page(r#"<a href="x">&</a>"#, "repos", "repos", "");
    assert!(escaped.contains("<title>&lt;a href=&quot;x&quot;&gt;&amp;&lt;/a&gt; · watchtower</title>"));
    let header = render("repos");
    assert!(header.contains(r#"<a class="header-nav-item active" href="/">Repos</a>"#));
    assert!(header.contains(r#"<a class="header-nav-item" href="/api/metrics">Metrics</a>"#));
    let html = page("a<b", "metrics", "repos", "<p>hi</p>");
    assert!(html.starts_with("<!DOCTYPE html><html lang=\"en\">"));
    assert!(html.contains("<title>a&lt;b · watchtower</title>"));
    assert!(html.contains(r#"<body class="repos-page" hx-ext="morph">"#));
    assert!(html.contains(r#"<div class="content"><p>hi</p></div></body></html>"#));
    let heading = render_heading(&repo("linuxserver/<sonarr>"));
    assert!(heading.contains("lscr.io/linuxserver/&lt;sonarr&gt;"));
    assert!(heading.contains(r#"hx-post="/api/repo/42/refresh""#));
    assert!(heading.contains("Pause tracking"));
}

#[test]
fn repo_rows_summarise_health() {
    let (dot, text) = repo_health(3, Some(5));
    assert_eq!((dot, text.as_str()), ("status-error", "3 consecutive failures"));
    let (dot, text) = repo_health(0, Some(5));
    assert_eq!((dot, text.as_str()), ("status-ok", "ok"));
    let (dot, text) = repo_health(0, None);
    assert_eq!((dot, text.as_str()), ("status-pending", "awaiting first refresh"));
    assert_eq!(gone_tags(3, 5), Some(2));
    assert_eq!(gone_tags(5, 5), None);
}

#[test]
fn tag_rows_show_class_version_and_history() {
    assert_eq!(tag_class("1.2.3"), "immutable");
    assert_eq!(tag_class("latest"), "floating");
    assert_eq!(earlier_digests(1), None);
    assert_eq!(earlier_digests(2).as_deref(), Some("1 earlier digest"));
    assert_eq!(earlier_digests(4).as_deref(), Some("3 earlier digests"));
    let parsed = parse_version("10.6.4-1-ls90").unwrap();
    assert_eq!(parsed_summary(&parsed), "10.6.4 · 1 +ls90");
    assert_eq!(exclude_offer(&Some(parsed.clone()), false).as_deref(), Some("10.6.4"));
    assert_eq!(exclude_offer(&Some(parsed), true), None);
    let set = ExclusionSet::new("x/y", vec![rule("5.14")]);
    let tags = vec![(tag(1, "5.14"), vec![]), (tag(2, "5.14-alpine"), vec![]), (tag(3, "latest"), vec![])];
    assert_eq!(excluded_count(&set, &tags), 2);
}

#[test]
fn hydrated_repos_leave_excluded_tags_out_unless_asked() {
    let tags = || {
        vec![
            (tag(1, "5.14"), vec![history("sha256:a"), history("sha256:b")]),
            (tag(2, "12.0ubu2604-ls48"), vec![]),
            (tag(3, "latest"), vec![history("sha256:c")]),
        ]
    };
    let state = Some(RepoState::after_failure(None, 42, 7, "boom"));
    let default = hydrate(repo("x/y"), false, vec![rule("5.14")], tags(), state.clone());
    assert_eq!(default.tag.iter().map(|t| t.id).collect::<Vec<_>>(), vec![2, 3]);
    assert_eq!(default.tag[0].version.as_deref(), Some("12.0"));
    assert_eq!(default.tag[0].build.as_deref(), Some("ubu2604.ls48"));
    assert!(!default.tag[0].excluded);
    assert_eq!(default.tag[1].history[0].digest, "sha256:c");
    assert_eq!(default.consecutive_failures, 1);
    assert_eq!(default.last_error.as_deref(), Some("boom"));
    assert_eq!(default.exclusions.len(), 1);
    let all = hydrate(repo("x/y"), true, vec![rule("5.14")], tags(), None);
    assert_eq!(all.tag.len(), 3);
    assert!(all.tag[0].excluded);
    assert_eq!(all.tag[0].history.len(), 2);
    assert_eq!(all.consecutive_failures, 0);
}

#[test]
fn event_pages_are_clamped() {
    assert_eq!(default_event_limit(), 200);
    assert_eq!(EventsQuery { after: 0, limit: 0 }.page_limit(), 1);
    assert_eq!(EventsQuery { after: 0, limit: 50 }.page_limit(), 50);
    assert_eq!(EventsQuery { after: 0, limit: 5000 }.page_limit(), 1000);
}

#[test]
fn the_repo_form_needs_both_fields() {
    let egg = RepoEgg::from_form(Some(" ghcr.io "), Some("qdm12/gluetun\n")).unwrap();
    assert_eq!(egg.registry, "ghcr.io");
    assert_eq!(egg.name, "qdm12/gluetun");
    assert!(RepoEgg::from_form(Some("ghcr.io"), None).is_err());
    assert!(RepoEgg::from_form(Some("  "), Some("x")).is_err());
}

#[test]
fn ages_are_measured_from_the_given_now() {
    assert_eq!(format_ago(100, None), "never");
    assert_eq!(format_ago(100, Some(101)), "in the future");
    assert_eq!(format_ago(100, Some(41)), "just now");
    assert_eq!(format_ago(7200, Some(0)), "2h ago");
    assert_eq!(format_ago(i64::MAX, Some(i64::MIN)), "213503982334601d ago");
}

#[test]
fn a_repo_row_shows_status_counts_and_health() {
    let row = RepoRow {
        repo: repo("linuxserver/<sonarr>"),
        state: Some(RepoState::after_success(42, 1000)),
        active_tags: 3,
        total_tags: 5,
    };
    assert_eq!(
        render_repo_row(&row, 1000 + 120),
        r#"<tr><td><a href="/repo/42">linuxserver/&lt;sonarr&gt;</a><div class="cell-secondary">lscr.io</div></td><td><span class="badge badge-active">active</span></td><td>3<span class="cell-secondary"> (+2 gone)</span></td><td class="cell-secondary">2m ago</td><td class="cell-secondary"><span class="status-dot status-ok"></span>ok</td><td class="cell-actions"><button class="button button-small" hx-post="/api/repo/42/refresh" hx-swap="none" title="Queue an immediate refresh">Refresh now</button> <form class="inline-form" action="/repo/42/toggle" method="post"><button class="button button-small button-danger" type="submit">Pause</button></form></td></tr>"#
    );
    let paused = RepoRow { repo: Repo { active: false, ..repo("x/y") }, state: None, active_tags: 0, total_tags: 0 };
    let html = render_repo_row(&paused, 0);
    assert!(html.contains(r#"<td>0</td><td class="cell-secondary">never</td>"#));
    assert!(html.contains("awaiting first refresh"));
    assert!(html.contains(">Resume</button>"));
}

#[test]
fn the_repo_list_invites_a_first_repo() {
    assert!(render_repo_table(&vec![], 0).starts_with(r#"<div class="empty-state"><h2>No repos tracked yet</h2>"#));
    let row = RepoRow { repo: repo("x/y"), state: None, active_tags: 1, total_tags: 1 };
    let table = render_repo_table(&vec![row.clone(), row], 0);
    assert!(table.starts_with(r#"<table class="data-table"><thead><tr><th>Repo</th>"#));
    assert_eq!(table.matches("<tr><td><a href=").count(), 2);
    let page = render_repos_page(&vec![], 0);
    assert!(page.starts_with("<!DOCTYPE html>"));
    assert!(page.contains(r#"<input type="text" name="registry" placeholder="registry (e.g. ghcr.io)" required>"#));
    assert!(page.contains(r#"<div id="repo-table" hx-get="/fragments/repo-rows" hx-trigger="every 5s" hx-swap="morph:innerHTML"><div class="empty-state">"#));
}

#[test]
fn the_exclusions_card_lists_rules_and_the_publisher_rule() {
    let mut r = rule("14.3.*");
    r.note = Some("<beta>".to_string());
    let html = render_exclusions(&repo("linuxserver/sonarr"), &vec![r], 3600);
    assert!(html.contains("Built-in for this publisher: linuxserver.io alias"));
    assert!(html.contains(r#"<tr><td><code>14.3.*</code></td><td>&lt;beta&gt;</td><td class="cell-secondary">1h ago</td>"#));
    assert!(html.contains(r#"action="/exclusion/1/remove""#));
    assert!(html.contains(r#"pattern="[0-9]+(\.[0-9]+)*(\.\*)?""#));
    let plain = render_exclusions(&repo("x/y"), &vec![], 0);
    assert!(!plain.contains("Built-in"));
    assert!(!plain.contains("<table"));
    assert!(plain.contains(r#"action="/repo/42/exclusions""#));
}

#[test]
fn tag_rows_flag_exclusions_and_offer_to_exclude() {
    let set = ExclusionSet::new("x/y", vec![rule("5.14")]);
    let excluded = render_tag_row(42, &tag(1, "5.14"), &vec![history("sha256:aaaa"), history("sha256:bbbb")], &set, 20);
    assert!(excluded.starts_with(r#"<tr class="tag-excluded"><td><code>5.14</code> <span class="badge badge-excluded" title="Excluded by rule 5.14">excluded</span></td>"#));
    assert!(excluded.contains(r#"<td><span class="badge badge-floating">floating</span> <span class="cell-secondary" title="Version, variant and build as consumers read this tag">5.14</span></td>"#));
    assert!(excluded.contains(r#"<details class="history-details"><summary>1 earlier digest</summary><ul><li><code class="digest" title="sha256:bbbb">bbbb</code> — just now to just now</li></ul></details>"#));
    assert!(excluded.ends_with(r#"<td class="cell-actions"></td></tr>"#));
    let mut gone = tag(2, "1.2.3");
    gone.active = false;
    let offered = render_tag_row(42, &gone, &vec![], &set, 20);
    assert!(offered.starts_with("<tr><td><code>1.2.3</code> <span class=\"badge badge-error\""));
    assert!(offered.contains(r#"<span class="badge badge-immutable">immutable</span>"#));
    assert!(offered.contains(r#"<span class="cell-secondary">not yet fetched</span></td><td class="cell-secondary">never</td>"#));
    assert!(offered.contains(r#"<input type="hidden" name="version" value="1.2.3"><button class="button button-small" type="submit" title="Exclude version 1.2.3 from version matching">Exclude</button>"#));
}

#[test]
fn the_repo_page_shows_state_events_and_tags() {
    let set = ExclusionSet::new("x/y", vec![rule("5.14")]);
    let state = Some(RepoState::after_failure(Some(&RepoState::after_failure(None, 42, 5, "a")), 42, 7, "boom & bust"));
    let event = Event {
        id: 1,
        repo_id: 42,
        registry: "lscr.io".to_string(),
        name: "x/y".to_string(),
        tag: "5.14".to_string(),
        version: None,
        variant: None,
        kind: EventKind::TagMoved,
        digest: Some("sha256:new".to_string()),
        previous_digest: Some("sha256:old".to_string()),
        at: 0,
    };
    let tags = vec![(tag(1, "5.14"), vec![history("sha256:a")]), (tag(2, "latest"), vec![])];
    let html = render_repo_detail(42, &state, &tags, &set, &vec![event], 3 * 86400);
    assert!(html.starts_with(r#"<div class="alert alert-danger"><strong>Last refresh failed</strong> (2 consecutive failures)<pre>boom &amp; bust</pre></div>"#));
    assert!(html.contains(r#"<div class="stat-label">Tags tracked</div><div class="stat-value">2 <span class="cell-secondary">(1 excluded)</span></div>"#));
    assert!(html.contains(r#"<span class="badge badge-floating">moved</span></td><td><code>5.14</code> <span class="badge badge-excluded" title="Not in /api/events: this version is excluded">excluded</span>"#));
    assert!(html.contains(r#"<code class="digest" title="sha256:old">old</code> → <code class="digest" title="sha256:new">new</code>"#));
    assert!(html.contains(r#"<td class="cell-secondary">3d ago</td>"#));
    let empty = render_repo_detail(42, &None, &vec![], &set, &vec![], 0);
    assert!(!empty.contains("alert"));
    assert!(!empty.contains("Recent events"));
    assert!(empty.ends_with(r#"<p>This repo hasn't been refreshed yet. Use &quot;Refresh now&quot; to fetch it immediately.</p></div>"#));
    let page = render_repo_page(&repo("x/y"), &None, &vec![], vec![], &vec![], 0);
    assert!(page.contains("<title>lscr.io/x/y · watchtower</title>"));
    assert!(page.contains(r#"<body class="repo-detail-page" hx-ext="morph">"#));
    assert!(page.contains(r#"<div id="repo-detail" hx-get="/fragments/repo/42" hx-trigger="every 10s" hx-swap="morph:innerHTML">"#));
}

#[test]
fn the_webhook_list_is_empty_until_events_arrive() {
    assert_eq!(
        render_webhook_list(0),
        r#"<div class="empty-state"><h2>No webhook events yet</h2><p>Events will appear here as they are received.</p></div>"#
    );
    assert_eq!(render_webhook_list(2), render_event_row().repeat(2));
    assert!(render_event_row().contains(r#"<div class="webhook-payload">Loading…</div>"#));
}
