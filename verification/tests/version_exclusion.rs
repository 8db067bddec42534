use watchtower::db::version_exclusion::{validate_rule, Exclusion, ExclusionSet, VersionExclusion};

fn rule(version: &str) -> VersionExclusion {
    VersionExclusion {
        id: 0,
        repo_id: 0,
        version: version.to_string(),
        note: None,
        created_at: 0,
    }
}

#[test]
fn exact_rules_match_the_parsed_version_of_a_tag() {
    let set = ExclusionSet::new("x/y", vec![rule("5.14"), rule("20.04.1")]);
    assert!(set.excludes("5.14"));
    assert!(
        set.excludes("5.14-2.0.0.5344-ls9"),
        "variants share the version"
    );
    assert!(set.excludes("v20.04.1"));
    assert!(!set.excludes("5.14.1"));
    assert!(!set.excludes("4.0.19.2979-ls323"));
    assert!(!set.excludes("latest"));
    assert!(
        !set.excludes("14.3.9.99202110311443-7435-01519b5e7ubuntu20.04.1-ls166"),
        "the version is what is before the dash, not what the variant mentions"
    );
}

#[test]
fn wildcard_rules_match_a_prefix() {
    let set = ExclusionSet::new("x/y", vec![rule("14.3.*")]);
    assert!(set.excludes("14.3.9.99202110311443-7435-01519b5e7ubuntu20.04.1-ls166"));
    assert!(set.excludes("14.3.0"));
    assert!(!set.excludes("14.30.1"));
    assert!(
        !set.excludes("14.3"),
        "a prefix rule needs the dot after it"
    );
    assert!(ExclusionSet::new("x/y", vec![rule("14.*")]).excludes("14.3"));
    assert!(!ExclusionSet::new("x/y", vec![rule("14.*")]).excludes("140.3"));
}

#[test]
fn a_linuxserver_repo_excludes_its_aliases_without_a_rule() {
    let sonarr = ExclusionSet::new("linuxserver/sonarr", vec![rule("5.14")]);
    assert!(sonarr.excludes("4.0.19"));
    assert!(sonarr.excludes("4.0.19-develop"));
    assert!(!sonarr.excludes("4.0.19.2979-ls324"));
    assert!(!sonarr.excludes("latest"));
    assert!(
        matches!(sonarr.rule_for("5.14"), Some(Exclusion::Rule(_))),
        "an admin's rule is named ahead of the publisher's"
    );
    assert!(matches!(
        sonarr.rule_for("4.0.19"),
        Some(Exclusion::Alias(_))
    ));
    assert!(!sonarr.is_empty());
    assert!(ExclusionSet::new("linuxserver/jellyfin", vec![]).excludes("10.11.11"));
    assert!(!ExclusionSet::new("linuxserver/jellyfin", vec![]).is_empty());
    let postgres = ExclusionSet::new("library/postgres", vec![]);
    assert!(!postgres.excludes("15.11"));
    assert!(postgres.is_empty());
}

#[test]
fn rules_are_versions_or_dotted_prefixes() {
    assert_eq!(validate_rule(" 20.04.1 ").unwrap(), "20.04.1");
    assert_eq!(validate_rule("14.3.*").unwrap(), "14.3.*");
    assert_eq!(validate_rule("5").unwrap(), "5");
    for bad in [
        "",
        "*",
        ".*",
        "v1.2",
        "1.2.3-alpine",
        "1..2",
        "14.3*",
        "abc",
    ] {
        assert!(validate_rule(bad).is_err(), "{bad:?} should be rejected");
    }
}

#[test]
fn a_set_can_exclude_when_it_has_a_rule_or_a_linuxserver_publisher() {
    assert!(ExclusionSet::new("qdm12/gluetun", vec![]).is_empty());
    assert!(!ExclusionSet::new("qdm12/gluetun", vec![rule("1.2")]).is_empty());
    assert!(!ExclusionSet::new("linuxserver/radarr", vec![]).is_empty());
    assert!(ExclusionSet::new("linuxserver/radarr", vec![]).excludes("5.14"));
    assert!(!ExclusionSet::new("linuxserver/radarr", vec![]).excludes("5.14.2.9656-ls250"));
}
