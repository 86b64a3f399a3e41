use sprout::paths::{normalize_path_components, strip_path_prefix, validate_uploads_path};

#[test]
fn test_relative_inside_paths_are_safe() {
    assert!(validate_uploads_path("wp-content/uploads"));
    assert!(validate_uploads_path("./wp-content/uploads"));
    assert!(validate_uploads_path("a/./b"));
    assert!(validate_uploads_path("a/b/../c"));
    assert!(validate_uploads_path("uploads"));
}

#[test]
fn test_escaping_paths_are_refused() {
    assert!(!validate_uploads_path("../escape"));
    assert!(!validate_uploads_path("../../escape"));
    assert!(!validate_uploads_path("a/../../escape"));
    assert!(!validate_uploads_path("a/b/../../.."));
}

#[test]
fn test_absolute_paths_are_refused() {
    assert!(!validate_uploads_path("/etc"));
    assert!(!validate_uploads_path("/"));
}

#[test]
fn test_paths_resolving_to_the_root_are_refused() {
    assert!(!validate_uploads_path(""));
    assert!(!validate_uploads_path("."));
    assert!(!validate_uploads_path("a/.."));
    assert!(!validate_uploads_path("./a/.."));
}

#[test]
fn test_normalize_components() {
    let parts: Vec<String> = vec!["a".into(), ".".into(), "b".into(), "..".into(), "c".into()];
    let n = normalize_path_components(&parts).unwrap();
    assert_eq!(n, vec!["a".to_string(), "c".to_string()]);
    let escaping: Vec<String> = vec!["a".into(), "..".into(), "..".into()];
    assert!(normalize_path_components(&escaping).is_none());
}

#[test]
fn test_strip_path_prefix() {
    assert_eq!(
        strip_path_prefix("/home/me/site/uploads", "/home/me/site"),
        Some("uploads".to_string())
    );
    assert_eq!(strip_path_prefix("/home/me/site", "/home/me/site"), None);
    assert_eq!(strip_path_prefix("/elsewhere/uploads", "/home/me/site"), None);
}
