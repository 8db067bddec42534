use std::collections::HashMap;
use watchtower::db::event::{Event, EventKind, FeedPage};
use watchtower::db::version_exclusion::{ExclusionSet, VersionExclusion};

fn event(id: u64, repo_id: u64, tag: &str) -> Event {
    Event::from_parts(
        id,
        repo_id,
        "lscr.io".to_string(),
        "linuxserver/sonarr".to_string(),
        tag.to_string(),
        "tag_added",
        None,
        None,
        1_700_000_000,
    )
}

fn rule(repo_id: u64, version: &str) -> VersionExclusion {
    VersionExclusion { id: 1, repo_id, version: version.to_string(), note: None, created_at: 0 }
}

/// Events with an id greater than `after`, oldest first, at most `limit`.
fn list_after(table: &[Event], after: u64, limit: usize) -> Vec<Event> {
    table.iter().filter(|e| e.id > after).take(limit).cloned().collect()
}

fn feed(table: &[Event], exclusions: &HashMap<u64, ExclusionSet>, after: u64, limit: usize) -> Vec<u64> {
    let mut page = FeedPage::start(after);
    loop {
        let batch = list_after(table, page.cursor, limit);
        page = Event::feed_step(exclusions, page, batch, limit);
        if page.done {
            return page.events.iter().map(|e| e.id).collect();
        }
    }
}

#[test]
fn kinds_read_back_as_written() {
    for kind in [EventKind::TagAdded, EventKind::TagMoved, EventKind::TagRemoved] {
        assert_eq!(EventKind::parse(kind.as_str()), Some(kind));
    }
    assert_eq!(EventKind::TagMoved.as_str(), "tag_moved");
    assert_eq!(EventKind::parse("tag_renamed"), None);
}

#[test]
fn events_carry_the_version_their_tag_names() {
    let e = event(7, 1, "10.6.4-1-ls90");
    assert_eq!(e.version.as_deref(), Some("10.6.4"));
    assert_eq!(e.variant.as_deref(), Some("1"));
    assert_eq!(e.kind, EventKind::TagAdded);
    assert_eq!(e.at, 1_700_000_000);
    let odd = Event::from_parts(8, 1, "r".into(), "n".into(), "latest".into(), "bogus", None, None, i64::MAX);
    assert_eq!(odd.kind, EventKind::TagAdded, "an unknown kind reads as an addition");
    assert_eq!(odd.version, None);
    assert_eq!(odd.at, 0, "an instant beyond the calendar reads as the epoch");
}

#[test]
fn the_feed_pages_past_runs_of_excluded_events() {
    let table = vec![
        event(1, 1, "5.14-2.0.0.5344-ls5"),
        event(2, 1, "5.14-2.0.0.5344-ls6"),
        event(3, 1, "5.14-2.0.0.5344-ls7"),
        event(4, 1, "4.0.19.2979-ls323"),
        event(5, 1, "latest"),
        event(6, 2, "5.14"),
    ];
    let mut exclusions = HashMap::new();
    exclusions.insert(1, ExclusionSet::new("linuxserver/sonarr", vec![rule(1, "5.14")]));
    assert_eq!(feed(&table, &exclusions, 0, 2), vec![4, 5]);
    assert_eq!(feed(&table, &exclusions, 0, 1), vec![4]);
    // Repo 2 has no exclusion set here (a repo outside linuxserver.io with
    // no rule), so nothing of it is hidden: rules are per repo.
    assert_eq!(feed(&table, &exclusions, 5, 10), vec![6], "rules are per repo");
    assert_eq!(feed(&table, &exclusions, 6, 10), Vec::<u64>::new());
    assert_eq!(feed(&table, &HashMap::new(), 0, 10), vec![1, 2, 3, 4, 5, 6]);
    assert_eq!(feed(&table, &exclusions, 0, 0), Vec::<u64>::new(), "a limit of 0 is the empty page");
}

#[test]
fn publisher_aliases_hide_events_in_the_feed_too() {
    // Repo 2 is linuxserver/radarr with no admin rule: its publisher's
    // alias rule still applies, so its bare `5.14` tag (no build number)
    // is an alias and stays out of the feed, while a build of it shows.
    let table = vec![event(1, 2, "5.14"), event(2, 2, "5.14.2.9656-ls250"), event(3, 2, "latest")];
    let mut exclusions = HashMap::new();
    exclusions.insert(2, ExclusionSet::new("linuxserver/radarr", vec![]));
    assert_eq!(feed(&table, &exclusions, 0, 10), vec![2, 3]);
    let page = Event::feed_step(&exclusions, FeedPage::start(0), vec![], 0);
    assert!(page.done && page.events.is_empty() && page.cursor == 0);
}
