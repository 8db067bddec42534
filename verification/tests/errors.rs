use watchtower::db::tag_history::{DigestChange, HistoryWrite, TagHistory};
use watchtower::db::version_exclusion::{
    normalize_note, validate_rule, Exclusion, ExclusionSet, VersionExclusion,
};
use watchtower::db::repo::Repo;
use watchtower::error::{format_anyhow_chain, format_error_chain, AppError};
use watchtower::time::timestamp_or_epoch;

#[test]
fn errors_map_to_statuses_and_messages() {
    assert_eq!(AppError::NotFound("repo not found".into()).status_code(), 404);
    assert_eq!(AppError::InvalidInput("x".into()).status_code(), 400);
    assert_eq!(AppError::Parse("x".into()).status_code(), 400);
    assert_eq!(AppError::Http("x".into()).status_code(), 502);
    assert_eq!(AppError::Database("x".into()).status_code(), 500);
    assert_eq!(AppError::NotFound("repo not found".into()).message(), "Not found: repo not found");
    assert_eq!(AppError::Io("disk".into()).message(), "I/O error: disk");
    let err = validate_rule(" nope ").unwrap_err();
    assert_eq!(
        err.message(),
        "Invalid input: 'nope' is not a version: expected digits and dots like 20.04.1, or a prefix like 14.3.*"
    );
}

#[test]
fn error_chains_put_each_cause_on_its_own_line() {
    let chain = vec!["top".to_string(), "middle".to_string(), "root".to_string()];
    assert_eq!(format_error_chain(&chain), "top\n  Caused by: middle\n  Caused by: root");
    assert_eq!(format_error_chain(&vec!["only".to_string()]), "only");
    assert_eq!(format_anyhow_chain(&vec![]), "");
}

#[test]
fn exclusions_describe_themselves() {
    let rule = VersionExclusion { id: 1, repo_id: 1, version: "5.14".into(), note: Some("mono version".into()), created_at: 0 };
    assert_eq!(Exclusion::Rule(&rule).describe(), "Excluded by rule 5.14: mono version");
    let bare = VersionExclusion { note: None, ..rule.clone() };
    assert_eq!(Exclusion::Rule(&bare).describe(), "Excluded by rule 5.14");
    let set = ExclusionSet::new("linuxserver/sonarr", vec![]);
    let why = set.rule_for("4.0.19").unwrap().describe();
    assert!(why.starts_with("Excluded: linuxserver.io alias"));
    assert_eq!(normalize_note(Some("  mono  ")).as_deref(), Some("mono"));
    assert_eq!(normalize_note(Some("   ")), None);
    assert_eq!(normalize_note(None), None);
}

#[test]
fn exclusions_group_by_repo_and_skip_repos_that_exclude_nothing() {
    let repos = vec![
        Repo { id: 1, registry: "lscr.io".into(), name: "linuxserver/sonarr".into(), active: true },
        Repo { id: 2, registry: "lscr.io".into(), name: "linuxserver/radarr".into(), active: true },
        Repo { id: 3, registry: "docker.io".into(), name: "library/postgres".into(), active: true },
        Repo { id: 4, registry: "docker.io".into(), name: "library/nginx".into(), active: true },
    ];
    let rules = vec![
        VersionExclusion { id: 1, repo_id: 1, version: "5.14".into(), note: None, created_at: 0 },
        VersionExclusion { id: 2, repo_id: 3, version: "15.*".into(), note: None, created_at: 0 },
    ];
    let by_repo = VersionExclusion::group_by_repo(&repos, &rules);
    assert_eq!(by_repo.len(), 3);
    assert!(by_repo[&1].excludes("5.14-2.0.0.5344-ls9"));
    assert!(by_repo[&2].excludes("6.3.0"), "publisher aliases apply in the feed too");
    assert!(by_repo[&3].excludes("15.11"));
    assert!(!by_repo.contains_key(&4));
}

#[test]
fn digest_observations_extend_or_append_history() {
    let latest = TagHistory { tag_id: 1, digest: "sha256:a".into(), first_seen_at: 5, last_seen_at: 9 };
    let (write, change) = TagHistory::observe(Some(&latest), "sha256:a");
    assert_eq!(write, HistoryWrite::Extend { first_seen_at: 5 });
    assert!(matches!(change, DigestChange::Same));
    let (write, change) = TagHistory::observe(Some(&latest), "sha256:b");
    assert_eq!(write, HistoryWrite::Append);
    assert!(matches!(change, DigestChange::Moved { ref from } if from == "sha256:a"));
    let (write, change) = TagHistory::observe(None, "sha256:b");
    assert_eq!(write, HistoryWrite::Append);
    assert!(matches!(change, DigestChange::First));
}

#[test]
fn instants_beyond_the_calendar_read_as_the_epoch() {
    assert_eq!(timestamp_or_epoch(1_700_000_000), 1_700_000_000);
    assert_eq!(timestamp_or_epoch(i64::MAX), 0);
}
