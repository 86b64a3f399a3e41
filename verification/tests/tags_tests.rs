use sprout::errors::SproutError;
use sprout::snapshot::Snapshot;
use sprout::tags::{contains_tag, get_first_tag_value, get_tag_value, make_tag, tag_matches_key};

fn snap(id: &str, host: &str, time: i64, tags: &[&str]) -> Snapshot {
    Snapshot {
        id: id.to_string(),
        hostname: host.to_string(),
        time,
        tags: tags.iter().map(|t| t.to_string()).collect(),
        summary: None,
    }
}

#[test]
fn test_make_tag_encodes_key_colon_value() {
    assert_eq!(make_tag("sprt_branch", "main"), "sprt_branch:main");
    assert_eq!(make_tag("sprt_obj", "bundle"), "sprt_obj:bundle");
    assert_eq!(make_tag("sprt_uniq", ""), "sprt_uniq:");
}

#[test]
fn test_tag_matches_key_exact_prefix() {
    assert!(tag_matches_key("sprt_branch:main", "sprt_branch"));
    assert!(!tag_matches_key("sprt_branchx:main", "sprt_branch"));
    assert!(!tag_matches_key("sprt_branch", "sprt_branch"));
    assert!(tag_matches_key("sprt_branch:", "sprt_branch"));
    assert!(!tag_matches_key("sprt_bra", "sprt_branch"));
}

#[test]
fn test_get_tag_value_last_match_wins() {
    let tags: Vec<String> = vec![
        "sprt_branch:old".to_string(),
        "sprt_obj:bundle".to_string(),
        "sprt_branch:new".to_string(),
    ];
    assert_eq!(get_tag_value(&tags, "sprt_branch"), Some("new".to_string()));
}

#[test]
fn test_get_first_tag_value_first_match_wins() {
    let tags: Vec<String> = vec![
        "sprt_uniq:first".to_string(),
        "sprt_uniq:second".to_string(),
    ];
    assert_eq!(get_first_tag_value(&tags, "sprt_uniq"), Some("first".to_string()));
}

#[test]
fn test_get_tag_value_missing_key() {
    let tags: Vec<String> = vec!["sprt_obj:bundle".to_string()];
    assert_eq!(get_tag_value(&tags, "sprt_branch"), None);
}

#[test]
fn test_contains_tag_is_exact() {
    let tags: Vec<String> = vec!["sprt_obj:bundle".to_string()];
    assert!(contains_tag(&tags, "sprt_obj:bundle"));
    assert!(!contains_tag(&tags, "sprt_obj:bundl"));
    assert!(!contains_tag(&tags, "sprt_obj"));
}

#[test]
fn test_snapshot_tag_accessors() {
    let s = snap(
        "abcd",
        "myproject",
        10,
        &["sprt_obj:bundle", "sprt_uniq:deadbeef", "sprt_branch:main"],
    );
    assert!(s.is_bundle());
    assert!(s.on_branch("main"));
    assert!(!s.on_branch("other"));
    assert!(s.for_project("myproject"));
    assert_eq!(s.get_branch(), Ok("main".to_string()));
    assert_eq!(s.get_project_identity_hash(), Ok("deadbeef".to_string()));
    assert_eq!(s.get_project_name(), "myproject");
}

#[test]
fn test_snapshot_missing_tag_is_not_found() {
    let s = snap("abcd", "p", 0, &["sprt_obj:bundle"]);
    assert_eq!(s.get_branch(), Err(SproutError::NotFound));
    assert_eq!(
        Snapshot::get_sprout_tag(&s, "sprt_stats"),
        Err(SproutError::NotFound)
    );
}
