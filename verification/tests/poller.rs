use watchtower::db::repo_state::RepoState;
use watchtower::poller::{
    backoff_secs, continue_paging, emits_events, fetch_outcome, is_due, is_rate_limit, mentions_rate_limit,
    repo_reference, sorted_unique_tags, tracked_tags, FetchOutcome, FetchPlan, RefreshSummary,
};
use watchtower::db::repo::Repo;
use watchtower::db::event::EventKind;
use watchtower::db::tag_history::DigestChange;
use watchtower::poller::{added_event, digest_event, removed_events};
use watchtower::error::AppError;

fn failing(failures: u32, attempted: i64) -> RepoState {
    RepoState {
        repo_id: 1,
        last_checked_at: Some(0),
        last_attempted_at: Some(attempted),
        last_error: Some("boom".to_string()),
        consecutive_failures: failures,
    }
}

#[test]
fn backoff_doubles_up_to_the_refresh_interval() {
    assert_eq!(backoff_secs(1), 60);
    assert_eq!(backoff_secs(2), 120);
    assert_eq!(backoff_secs(5), 960);
    assert_eq!(backoff_secs(9), 15360);
    assert_eq!(backoff_secs(10), 21600);
    assert_eq!(backoff_secs(u32::MAX), 21600);
}

#[test]
fn repos_are_due_by_interval_or_backoff() {
    assert_eq!(is_due(None, 0), Some(true));
    let fresh = RepoState::after_success(1, 1_000_000);
    assert_eq!(is_due(Some(&fresh), 1_000_000 + 21599), Some(false));
    assert_eq!(is_due(Some(&fresh), 1_000_000 + 21600), Some(true));
    let failed = failing(3, 2_000_000);
    assert_eq!(is_due(Some(&failed), 2_000_000 + 239), Some(false));
    assert_eq!(is_due(Some(&failed), 2_000_000 + 240), Some(true));
    let never = RepoState { repo_id: 1, last_checked_at: None, last_attempted_at: None, last_error: None, consecutive_failures: 0 };
    assert_eq!(is_due(Some(&never), 0), Some(true));
    assert_eq!(is_due(Some(&failing(1, i64::MAX - 10)), 0), None, "beyond the calendar");
}

#[test]
fn failures_build_a_streak_and_success_clears_it() {
    let first = RepoState::after_failure(None, 1, 100, "boom");
    assert_eq!(first.consecutive_failures, 1);
    assert_eq!(first.last_checked_at, None);
    let second = RepoState::after_failure(Some(&first), 1, 200, "bang");
    assert_eq!(second.consecutive_failures, 2);
    assert_eq!(second.last_attempted_at, Some(200));
    assert_eq!(second.last_error.as_deref(), Some("bang"));
    let ok = RepoState::after_success(1, 300);
    assert_eq!(ok.consecutive_failures, 0);
    assert_eq!(ok.last_error, None);
    assert!(!emits_events(None), "a first refresh is a baseline");
    assert!(!emits_events(Some(&first)));
    assert!(emits_events(Some(&ok)));
}

#[test]
fn refreshes_track_only_tags_that_are_not_excluded() {
    let (kept, excluded) = tracked_tags(vec![
        "latest".to_string(),
        "pr-3430".to_string(),
        "1.2.3".to_string(),
        "main-cb3cbef".to_string(),
    ]);
    assert_eq!(kept, vec!["latest".to_string(), "1.2.3".to_string()]);
    assert_eq!(excluded, 2);
}

#[test]
fn floating_tags_are_fetched_before_the_budgeted_backfill() {
    let mut plan = FetchPlan::new();
    plan.add(1, "latest".to_string(), true);
    plan.add(2, "1.2.3".to_string(), true);
    for i in 0..502u64 {
        plan.add(10 + i, format!("1.0.{i}"), false);
    }
    plan.add(3, "3.41".to_string(), false);
    let (order, deferred) = plan.finish();
    assert_eq!(deferred, 2);
    assert_eq!(order.len(), 502);
    assert_eq!(order[0], (1, "latest".to_string()));
    assert_eq!(order[1], (3, "3.41".to_string()));
    assert_eq!(order[2], (10, "1.0.0".to_string()));
    assert_eq!(order[501], (509, "1.0.499".to_string()));
}

#[test]
fn rate_limits_are_recognised_whatever_the_case() {
    assert!(is_rate_limit("TOOMANYREQUESTS: slow down"));
    assert!(is_rate_limit("Too Many Requests"));
    assert!(is_rate_limit("registry answered 429"));
    assert!(is_rate_limit("Retry-After: 30"));
    assert!(!is_rate_limit("manifest unknown"));
    assert!(mentions_rate_limit("toomanyrequests"));
    assert!(!mentions_rate_limit("TOOMANYREQUESTS"));
    assert_eq!(fetch_outcome(true, "429"), FetchOutcome::Fetched);
    assert_eq!(fetch_outcome(false, "Too Many Requests"), FetchOutcome::RateLimited);
    assert_eq!(fetch_outcome(false, "timeout"), FetchOutcome::Failed);
    assert_eq!(FetchOutcome::RateLimited.label(), "rate_limited");
}

#[test]
fn a_rate_limit_stops_the_pass() {
    let mut summary = RefreshSummary::new(1, 3);
    assert!(summary.note_fetch(FetchOutcome::Fetched));
    assert!(summary.note_fetch(FetchOutcome::Failed));
    assert!(!summary.note_fetch(FetchOutcome::RateLimited));
    assert_eq!(summary.digests_fetched, 1);
    assert_eq!(summary.digests_failed, 1);
    assert!(summary.rate_limited);
    assert!(!summary.note_event(false));
    assert!(summary.note_event(true));
    assert_eq!(summary.events, 1);
}

#[test]
fn paging_stops_on_short_pages_and_on_no_progress() {
    let a = Some("a".to_string());
    let b = Some("b".to_string());
    assert!(continue_paging(100, &b, &a));
    assert!(continue_paging(100, &b, &None));
    assert!(!continue_paging(99, &b, &a));
    assert!(!continue_paging(100, &None, &a));
    assert!(!continue_paging(100, &a, &a));
}

#[test]
fn tag_lists_are_sorted_sets() {
    let tags = sorted_unique_tags(vec![
        "b".to_string(),
        "a".to_string(),
        "b".to_string(),
        "Z".to_string(),
    ]);
    assert_eq!(tags, vec!["Z".to_string(), "a".to_string(), "b".to_string()]);
}

#[test]
fn a_repo_is_listed_under_its_registry_reference() {
    let repo = Repo { id: 1, registry: "ghcr.io".to_string(), name: "qdm12/gluetun".to_string(), active: true };
    let reference = repo_reference(&repo).unwrap();
    assert_eq!(reference.registry, "ghcr.io");
    assert_eq!(reference.repository, "qdm12/gluetun");
    assert_eq!(reference.reference.registry(), "ghcr.io");
    let bad = Repo { id: 2, registry: "ghcr.io".to_string(), name: "Not Valid".to_string(), active: true };
    match repo_reference(&bad) {
        Err(AppError::Parse(message)) => assert!(!message.is_empty()),
        _ => panic!("an invalid name is a parse error"),
    }
}

#[test]
fn a_refresh_emits_one_event_per_change() {
    let added = added_event(7, "1.2.3".to_string());
    assert_eq!((added.repo_id, added.tag.as_str(), added.kind), (7, "1.2.3", EventKind::TagAdded));
    assert!(added.digest.is_none() && added.previous_digest.is_none());
    let moved = digest_event(7, "latest".to_string(), "sha256:new".to_string(), DigestChange::Moved { from: "sha256:old".to_string() }).unwrap();
    assert_eq!(moved.kind, EventKind::TagMoved);
    assert_eq!(moved.digest.as_deref(), Some("sha256:new"));
    assert_eq!(moved.previous_digest.as_deref(), Some("sha256:old"));
    assert!(digest_event(7, "latest".to_string(), "sha256:a".to_string(), DigestChange::Same).is_none());
    assert!(digest_event(7, "latest".to_string(), "sha256:a".to_string(), DigestChange::First).is_none());
    let gone = removed_events(7, vec!["a".to_string(), "b".to_string()]);
    assert_eq!(gone.iter().map(|e| e.tag.as_str()).collect::<Vec<_>>(), vec!["a", "b"]);
    assert!(gone.iter().all(|e| e.kind == EventKind::TagRemoved && e.repo_id == 7));
    let mut summary = RefreshSummary::new(0, 0);
    summary.note_deactivated(2);
    assert_eq!(summary.tags_deactivated, 2);
}
