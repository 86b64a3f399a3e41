use sprout::errors::SproutError;
use sprout::project::{Project, ProjectConfig};
use sprout::snapshot::Snapshot;

fn config(name: &str, branch: &str, snapshot: Option<&str>, uploads: &str) -> ProjectConfig {
    ProjectConfig {
        name: name.to_string(),
        branch: branch.to_string(),
        snapshot: snapshot.map(|s| s.to_string()),
        uploads_path: uploads.to_string(),
        repo: "default".to_string(),
    }
}

fn bundle(id: &str, host: &str, branch: &str, time: i64) -> Snapshot {
    Snapshot {
        id: id.to_string(),
        hostname: host.to_string(),
        time,
        tags: vec![
            "sprt_obj:bundle".to_string(),
            format!("sprt_branch:{}", branch),
        ],
        summary: None,
    }
}

#[test]
fn test_project_path_escape_safety() {
    // traversal with ../ must fail before any file-system mutation
    let up = Project::new("/proj".to_string(), config("p", "main", None, "../escape"), None);
    assert!(up.is_err(), "Uploads path traversal ../ should result in error");

    let upup = Project::new(
        "/proj".to_string(),
        config("p", "main", None, "../../escape"),
        None,
    );
    assert!(upup.is_err(), "Uploads path traversal ../../ should result in error");

    let abs = Project::new("/proj".to_string(), config("p", "main", None, "/uploads"), None);
    assert!(abs.is_err(), "Absolute uploads path should result in error");

    assert_eq!(
        Project::new("/proj".to_string(), config("p", "main", None, "/uploads"), None)
            .err()
            .unwrap(),
        SproutError::PathSafety
    );
}

#[test]
fn test_project_new_sets_default_home_url() {
    let p = Project::new(
        "/proj".to_string(),
        config("mysite", "main", None, "wp-content/uploads"),
        Some("h".to_string()),
    )
    .unwrap();
    assert_eq!(p.home_url, "https://mysite.test");
    assert_eq!(p.unique_hash, Some("h".to_string()));
}

#[test]
fn test_initialise_defaults() {
    let c = Project::initialise("/proj", "p".to_string(), "repo1".to_string(), false, None);
    assert_eq!(c.branch, "main");
    assert_eq!(c.snapshot, None);
    assert_eq!(c.repo, "repo1");
    assert_eq!(c.uploads_path, "./wp-content/uploads");
}

#[test]
fn test_initialise_uses_detected_uploads_dir() {
    let c = Project::initialise(
        "/proj",
        "p".to_string(),
        "repo1".to_string(),
        true,
        Some("/proj/media/uploads".to_string()),
    );
    assert_eq!(c.uploads_path, "media/uploads");
    // a detected directory outside the project falls back to the default
    let d = Project::initialise(
        "/proj",
        "p".to_string(),
        "repo1".to_string(),
        true,
        Some("/elsewhere/uploads".to_string()),
    );
    assert_eq!(d.uploads_path, "./wp-content/uploads");
}

#[test]
fn test_update_snapshot_id() {
    let mut p = Project::new(
        "/proj".to_string(),
        config("p", "main", None, "uploads"),
        None,
    )
    .unwrap();
    p.update_snapshot_id("newid".to_string(), "feature".to_string());
    assert_eq!(p.config.snapshot, Some("newid".to_string()));
    assert_eq!(p.config.branch, "feature");
    assert_eq!(p.config.name, "p");
}

#[test]
fn test_active_snapshot_respects_recorded_pointer() {
    let snaps = vec![
        bundle("s1", "p", "main", 10),
        bundle("s2", "p", "main", 20),
        bundle("s3", "p", "main", 30),
    ];
    let pinned = Project::new(
        "/proj".to_string(),
        config("p", "main", Some("s2"), "uploads"),
        None,
    )
    .unwrap();
    assert_eq!(pinned.get_active_snapshot(&snaps).unwrap().id, "s2");

    let unpinned = Project::new(
        "/proj".to_string(),
        config("p", "main", None, "uploads"),
        None,
    )
    .unwrap();
    assert_eq!(unpinned.get_active_snapshot(&snaps).unwrap().id, "s3");

    let missing = Project::new(
        "/proj".to_string(),
        config("p", "main", Some("gone"), "uploads"),
        None,
    )
    .unwrap();
    assert!(matches!(
        missing.get_active_snapshot(&snaps),
        Err(SproutError::NotFound)
    ));
}

#[test]
fn test_plan_restore() {
    let p = Project::new(
        "/proj".to_string(),
        config("p", "main", None, "uploads"),
        None,
    )
    .unwrap();
    let local = vec!["1.txt".to_string(), "3.txt".to_string()];
    let remote = vec!["3.txt".to_string(), "4.txt".to_string()];
    let plan = p.plan_restore(&local, &remote).unwrap();
    assert_eq!(plan.destination, "/proj/uploads");
    assert_eq!(plan.to_delete, vec!["1.txt".to_string()]);
}

#[test]
fn test_plan_restore_revalidates_path_safety() {
    // construct a descriptor directly, bypassing Project::new, as a stale
    // or hand-edited file could
    let p = Project {
        path: "/proj".to_string(),
        config: config("p", "main", None, "../escape"),
        unique_hash: None,
        home_url: "https://p.test".to_string(),
    };
    let local: Vec<String> = vec![];
    let remote: Vec<String> = vec![];
    assert_eq!(
        p.plan_restore(&local, &remote).err().unwrap(),
        SproutError::PathSafety
    );
}
