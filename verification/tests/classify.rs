use watchtower::poller::classify::{
    is_commit_ish, is_date_like, is_excluded, is_immutable, parse_version, publisher_alias, TagVersion,
};
#[test]
fn ci_artifact_tags_are_excluded() {
    assert!(is_excluded("pr-3430"));
    assert!(is_excluded("commit-8f2c1aa"));
    assert!(is_excluded(
        "sha256-12284c68c09a6a50b4bbb7195e3d9cdb6ff50c102ce543f901ad7ed9d7d52844.sig"
    ));
    assert!(is_excluded("amd64-10.8.13-ls249"));
    assert!(is_excluded("arm64v8-latest"));
    assert!(is_excluded("arm32v7-2021.10.06"));
    assert!(is_excluded("arm32v6-2.0.12"));
    assert!(is_excluded("nightly-20201215.24-unstable-ls174"));
    assert!(is_excluded("nightly-version-2024030717ubu2204"));
    assert!(is_excluded("20201102.25-unstable-ls107"));
    assert!(is_excluded("version-20201102.25-unstable"));
    assert!(is_excluded("bionic-10.6.4-1-ls10"));
    assert!(is_excluded("sha-f2c9d2f"));
    assert!(is_excluded("main-cb3cbef"));
    assert!(is_excluded("main-cb3cbef-arm64"));
    assert!(is_excluded("k99-5206e3a"));
    assert!(is_excluded("groupcache-6f1c2ab-WIP-2"));
    assert!(is_excluded(
        "heads-storage-downsampling-per-tenant-0-gd596e1475"
    ));
    assert!(is_excluded("13.1.0-25893932881-ubuntu"));
    assert!(is_excluded("dependabot-uv-dev-utilities-minor-da626189b9"));
    assert!(is_excluded("latest-arm64"));
    assert!(is_excluded("helm-loki-5.44.1-arm"));
    assert!(is_excluded("v1.53.1-enterprise-ppc64le"));
    assert!(is_excluded("v1.53.1-386"));
    assert!(is_excluded("version-12.0ubu2604"));
    assert!(is_excluded("develop-version-4.0.9.2513"));
    assert!(is_excluded("v4-version-4.0.0.247"));
    assert!(is_excluded("libtorrentv1-version-release-5.2.0_v1.2.20"));
    assert!(!is_excluded("latest"));
    assert!(!is_excluded("nightly"));
    assert!(!is_excluded("v3.41.3"));
    assert!(!is_excluded("10.8.13-ls249"));
    assert!(!is_excluded("prod"));
    assert!(!is_excluded("commitment"));
    assert!(!is_excluded("20200413"));
    assert!(!is_excluded("2021.9.0-openj9-11"));
    assert!(!is_excluded("develop-4.0.9.2513-ls100"));
    assert!(!is_excluded("6.4.4-nightly"));
    assert!(!is_excluded("13.1.0-boringcrypto"));
    assert!(!is_excluded("v1.53.1-enterprise-scratch"));
    assert!(!is_excluded(
        "4.4.0202012141920-7145-c01d28a47ubuntu18.04.1"
    ));
    assert!(!is_excluded("2.0.0.5344-ls9"));
    assert!(!is_excluded("armada"));
    assert!(!is_excluded("shadow"));
    assert!(!is_excluded("openj9-nightly"));
}

#[test]
fn date_shaped_digit_runs_are_not_hashes() {
    assert!(is_date_like("20200413"));
    assert!(is_date_like("2024030717"));
    assert!(is_date_like("202403071730"));
    assert!(is_date_like("20240307173059"));
    assert!(!is_date_like("20201345"));
    assert!(!is_date_like("2024030725"));
    assert!(!is_date_like("25893932881"));
    assert!(!is_date_like("1234567"));
    assert!(!is_commit_ish("20200413"));
    assert!(is_commit_ish("25893932881"));
    assert!(is_commit_ish("cb3cbef"));
    assert!(is_commit_ish("g44452566d"));
    assert!(!is_commit_ish("g"));
    assert!(!is_commit_ish("abcdef"));
    assert!(!is_commit_ish("698b54o"));
    assert!(!is_commit_ish("CB3CBEF1"));
    assert!(!is_commit_ish("defaced"));
    assert!(!is_commit_ish("gdefaced"));
}

fn version(version: &str, variant: Option<&str>) -> Option<TagVersion> {
    Some(TagVersion {
        version: version.to_string(),
        variant: variant.map(String::from),
        build: None,
    })
}

fn built(version: &str, variant: Option<&str>, build: &str) -> Option<TagVersion> {
    Some(TagVersion {
        version: version.to_string(),
        variant: variant.map(String::from),
        build: Some(build.to_string()),
    })
}

#[test]
fn versions_have_two_to_four_numeric_parts() {
    assert_eq!(parse_version("1.27.3"), version("1.27.3", None));
    assert_eq!(parse_version("v1.12.1"), version("1.12.1", None));
    assert_eq!(parse_version("15.11"), version("15.11", None));
    assert_eq!(parse_version("4.0.19.2979"), version("4.0.19.2979", None));
    assert_eq!(parse_version("2021.12.07"), version("2021.12.07", None));
    assert_eq!(parse_version("18"), None, "one part is a channel");
    assert_eq!(parse_version("latest"), None);
    assert_eq!(parse_version("java25"), None);
    assert_eq!(parse_version("1.2.3.4.5"), None);
    assert_eq!(parse_version("10.11.8ubu2404"), None, "glued distro");
    assert_eq!(parse_version("5.2.3_v2.0.14"), None);
    assert_eq!(parse_version("1..3"), None);
    assert_eq!(parse_version("v"), None);
    assert_eq!(parse_version(""), None);
}

#[test]
fn the_first_dash_starts_the_variant() {
    assert_eq!(
        parse_version("2.1.2-alpine"),
        version("2.1.2", Some("alpine"))
    );
    assert_eq!(
        parse_version("2026.9.0-java25"),
        version("2026.9.0", Some("java25"))
    );
    assert_eq!(
        parse_version("4.0.19.2979-ls323"),
        built("4.0.19.2979", None, "ls323"),
        "a linuxserver build number is not a variant"
    );
    assert_eq!(parse_version("1.2.3-rc1"), version("1.2.3", Some("rc1")));
    assert_eq!(
        parse_version("15.11-bookworm"),
        version("15.11", Some("bookworm"))
    );
    assert_eq!(
        parse_version("2026.9.0-java25-alpine"),
        version("2026.9.0", Some("java25-alpine"))
    );
    assert_eq!(
        parse_version("v1.53.1-enterprise-scratch"),
        version("1.53.1", Some("enterprise-scratch"))
    );
    assert_eq!(parse_version("1.2.3-"), None);
    assert_eq!(parse_version("-alpine"), None);
    assert_eq!(parse_version("8-alpine"), None);
}

#[test]
fn linuxserver_builds_carry_glue_and_build_number_as_build_metadata() {
    // Jellyfin 12 dropped the patch component and its deb is 12.0+ubu2604.
    assert_eq!(
        parse_version("12.0ubu2604-ls48"),
        built("12.0", None, "ubu2604.ls48")
    );
    assert_eq!(
        parse_version("10.11.11ubu2404-ls42"),
        built("10.11.11", None, "ubu2404.ls42")
    );
    // qbittorrent glues its libtorrent version on with an underscore.
    assert_eq!(
        parse_version("5.2.3_v2.0.14-ls475"),
        built("5.2.3", None, "v2.0.14.ls475")
    );
    // A variant between the version and the build number survives.
    assert_eq!(
        parse_version("10.6.4-1-ls90"),
        built("10.6.4", Some("1"), "ls90")
    );
    assert_eq!(
        parse_version("14.3.2.99202012272006-7195-abb854a1eubuntu18.04.1-ls108"),
        built(
            "14.3.2.99202012272006",
            Some("7195-abb854a1eubuntu18.04.1"),
            "ls108"
        )
    );
    // Only a build number vouches for glue.
    assert_eq!(parse_version("12.0ubu2604"), None);
    assert_eq!(parse_version("12.0ubu2604-alpine"), None);
    assert_eq!(
        parse_version("1.2.3rc1-ls5"),
        built("1.2.3", None, "rc1.ls5")
    );
    assert_eq!(parse_version("1.2.3.-ls5"), None, "empty component");
    assert_eq!(parse_version("1.2.3--ls5"), None, "empty variant");
    assert_eq!(parse_version("1.2.3-ls"), version("1.2.3", Some("ls")));
    assert_eq!(parse_version("1.2.3-lsx1"), version("1.2.3", Some("lsx1")));
    assert_eq!(parse_version("develop-4.0.20.3012-ls191"), None);
    assert_eq!(parse_version("nightly-2026090709ubu2604-ls100"), None);
}

#[test]
fn full_versions_are_immutable() {
    assert!(is_immutable("v3.41.3"));
    assert!(is_immutable("3.5.7"));
    assert!(is_immutable("1.2.3.4"));
    assert!(is_immutable("7.0.15-alpine"));
    assert!(is_immutable("1.2.3-rc1"));
    assert!(is_immutable("v0.14.9"));
    assert!(is_immutable("10.10.0ubu2404-ls38"));
    assert!(is_immutable("10.6.4-1-ls10"));
}

#[test]
fn linuxserver_versioned_tags_without_a_build_are_aliases() {
    for alias in [
        "4.0.19",
        "4.0.19-develop",
        "10.11.11",
        "5.2.3-libtorrentv1",
        "2.5.2",
    ] {
        assert!(
            publisher_alias("linuxserver/sonarr", alias).is_some(),
            "{alias}"
        );
    }
    for real in [
        "4.0.19.2979-ls324",
        "12.0ubu2604-ls48",
        "5.2.3_v2.0.14-ls475",
        "latest",
        "develop",
        "nightly",
    ] {
        assert_eq!(publisher_alias("linuxserver/sonarr", real), None, "{real}");
    }
    assert_eq!(publisher_alias("library/postgres", "15.11"), None);
    assert_eq!(publisher_alias("linuxserverx/foo", "1.2.3"), None);
}

#[test]
fn linuxserver_builds_are_immutable_even_when_two_part() {
    assert!(is_immutable("12.0ubu2604-ls48"));
    assert!(is_immutable("5.2.3_v2.0.14-ls475"));
    assert!(is_immutable("15.11-ls3"));
    // The same shapes without the build number keep floating.
    assert!(!is_immutable("12.0ubu2604"));
    assert!(!is_immutable("12.0"));
    assert!(!is_immutable("5.2.3_v2.0.14"));
    assert!(!is_immutable("version-12.0ubu2604"));
}

#[test]
fn truncated_versions_float() {
    assert!(!is_immutable("v3"));
    assert!(!is_immutable("3.41"));
    assert!(!is_immutable("12.4"));
    assert!(!is_immutable("18"));
    assert!(!is_immutable("8-alpine"));
}

#[test]
fn named_tags_float() {
    assert!(!is_immutable("latest"));
    assert!(!is_immutable("alpine"));
    assert!(!is_immutable("edge"));
    assert!(!is_immutable("noble"));
    assert!(!is_immutable("pr-3430"));
    assert!(!is_immutable("java21"));
    assert!(!is_immutable("18beta1"));
}

#[test]
fn degenerate_tags_float() {
    assert!(!is_immutable(""));
    assert!(!is_immutable("v"));
    assert!(!is_immutable("1..3"));
    assert!(!is_immutable("-alpine"));
    assert!(!is_immutable("a.b.c"));
    assert!(!is_immutable("1.2.ubu2404"));
    assert!(!is_immutable("nightly-2024030717ubu2204-ls3"));
}
