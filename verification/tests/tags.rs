use shmtu::tags::{filter_candidate_tags, parse_semver_tag, pick_latest_tag, GhRelease, UNBOUNDED_MINOR};

fn rel(tag: &str, draft: bool, prerelease: bool) -> GhRelease {
    GhRelease {
        tag_name: tag.to_string(),
        published_at: Some(format!("at-{}", tag)),
        prerelease,
        draft,
    }
}

#[test]
fn parse_semver_tag_basic() {
    assert_eq!(parse_semver_tag("v2.0.2"), Some((2, 0, 2)));
    assert_eq!(parse_semver_tag("v2.0.0"), Some((2, 0, 0)));
    assert_eq!(parse_semver_tag("v1.0.0"), Some((1, 0, 0)));
    assert_eq!(parse_semver_tag("v10.20.30"), Some((10, 20, 30)));
}

#[test]
fn parse_semver_tag_invalid() {
    assert_eq!(parse_semver_tag("2.0.2"), None);
    assert_eq!(parse_semver_tag("v2.0"), None);
    assert_eq!(parse_semver_tag("v2.0.2.1"), None);
    assert_eq!(parse_semver_tag("v2.0.x"), None);
    assert_eq!(parse_semver_tag(""), None);
    assert_eq!(parse_semver_tag("v"), None);
}

#[test]
fn unbounded_minor_constant_matches_u32_max() {
    assert_eq!(UNBOUNDED_MINOR, u32::MAX);
}

#[test]
fn semver_parts_read_like_u32() {
    assert_eq!(parse_semver_tag("v+2.0.1"), Some((2, 0, 1)));
    assert_eq!(parse_semver_tag("v4294967295.0.0"), Some((u32::MAX, 0, 0)));
    assert_eq!(parse_semver_tag("v4294967296.0.0"), None);
    assert_eq!(parse_semver_tag("v2..1"), None);
    assert_eq!(parse_semver_tag("V2.0.1"), None);
}

#[test]
fn picks_newest_published_tag_in_range() {
    let rs = vec![
        rel("v2.0.1", false, false),
        rel("v2.1.0", false, false),
        rel("v2.0.3", false, true),
        rel("v2.0.2", false, false),
        rel("v3.0.0", false, false),
        rel("v2.0.9", true, false),
        rel("junk", false, false),
    ];
    assert_eq!(pick_latest_tag(&rs, 2, 0), Some("v2.0.2".to_string()));
    assert_eq!(pick_latest_tag(&rs, 2, UNBOUNDED_MINOR), Some("v2.1.0".to_string()));
    assert_eq!(pick_latest_tag(&rs, 3, 0), Some("v3.0.0".to_string()));
    assert_eq!(pick_latest_tag(&rs, 4, 0), None);
}

#[test]
fn equal_versions_keep_the_first_listed() {
    let rs = vec![rel("v2.0.+1", false, false), rel("v2.0.1", false, false)];
    assert_eq!(pick_latest_tag(&rs, 2, 0), Some("v2.0.+1".to_string()));
}

#[test]
fn candidates_keep_prereleases_and_drop_old_versions() {
    let rs = vec![
        rel("v2.0.3", false, true),
        rel("v2.0.2", false, false),
        rel("v2.0.0", false, false),
        rel("v2.0.5", true, false),
        rel("v2.1.0", false, false),
        rel("v1.9.9", false, false),
    ];
    let out = filter_candidate_tags(&rs, 2, 0, (2, 0, 1));
    let tags: Vec<&str> = out.iter().map(|t| t.tag.as_str()).collect();
    assert_eq!(tags, vec!["v2.0.3", "v2.0.2"]);
    assert!(out[0].prerelease);
    assert_eq!(out[1].published_at.as_deref(), Some("at-v2.0.2"));
    let all = filter_candidate_tags(&rs, 2, UNBOUNDED_MINOR, (2, 0, 0));
    assert_eq!(all.len(), 4);
}
