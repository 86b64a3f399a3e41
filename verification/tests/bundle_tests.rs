use sprout::bundle::{get_latest_unique_hash, preflight_identity, BundleSaga, BundleState, IdentityStatus};
use sprout::errors::SproutError;
use sprout::snapshot::Snapshot;
use sprout::stats::SnapshotSummary;

fn engine_record(id: &str, host: &str, time: i64, tags: Vec<String>, new: u64, changed: u64, unmodified: u64, data_added: u64) -> Snapshot {
    Snapshot {
        id: id.to_string(),
        hostname: host.to_string(),
        time,
        tags,
        summary: Some(SnapshotSummary {
            files_new: new,
            files_changed: changed,
            files_unmodified: unmodified,
            data_added,
            total_files_processed: new + changed + unmodified,
            total_bytes_processed: data_added,
        }),
    }
}

#[test]
fn test_bundle_saga_database_request() {
    let (saga, db_req) = BundleSaga::start(
        "proj".to_string(),
        "main".to_string(),
        Some("hash1".to_string()),
        false,
        Some("oldid".to_string()),
    );
    assert!(matches!(saga.state, BundleState::AwaitingDatabase));
    assert_eq!(db_req.virtual_path, "/.sprout/database/database.sql");
    assert_eq!(db_req.host, "proj");
    assert_eq!(
        db_req.tags,
        vec!["sprt_obj:database", "sprt_uniq:hash1", "sprt_branch:main"]
    );
    assert_eq!(db_req.parent, Some("oldid".to_string()));
}

#[test]
fn test_bundle_saga_automatic_parent_has_no_explicit_parent() {
    let (_, db_req) = BundleSaga::start(
        "proj".to_string(),
        "main".to_string(),
        None,
        true,
        Some("oldid".to_string()),
    );
    assert_eq!(db_req.parent, None);
    assert_eq!(
        db_req.tags,
        vec!["sprt_obj:database", "sprt_uniq:_none_", "sprt_branch:main"]
    );
}

#[test]
fn test_bundle_saga_full_run() {
    let (saga, _db_req) = BundleSaga::start(
        "proj".to_string(),
        "main".to_string(),
        Some("hash1".to_string()),
        false,
        Some("oldid".to_string()),
    );

    let db = engine_record("dbid", "proj", 100, vec![], 1, 0, 4, 50);
    let prior = engine_record("oldid", "proj", 90, vec!["sprt_obj:bundle".to_string()], 0, 0, 0, 0);
    let (saga, up_req) = saga.database_backed_up(db, Some(prior));
    assert_eq!(up_req.virtual_path, "/.sprout/uploads");
    assert_eq!(up_req.host, "proj");
    assert_eq!(
        up_req.tags,
        vec![
            "sprt_obj:uploads",
            "sprt_db:dbid",
            "sprt_uniq:hash1",
            "sprt_branch:main"
        ]
    );
    assert_eq!(up_req.parent, Some("oldid".to_string()));

    let uploads = engine_record("upid", "proj", 101, vec![], 2, 3, 6, 150);
    let (saga, merge_req) = saga.uploads_backed_up(uploads).unwrap();
    assert_eq!(merge_req.ids, vec!["dbid", "upid"]);
    assert_eq!(merge_req.host, "proj");
    // bundle accounting: packed statistics are the sums of both summaries
    assert_eq!(
        merge_req.tags,
        vec![
            "sprt_obj:bundle",
            "sprt_uniq:hash1",
            "sprt_branch:main",
            "sprt_stats:3/3/10/200"
        ]
    );

    let bundle = engine_record("bid", "proj", 102, merge_req.tags.clone(), 3, 3, 10, 200);
    let (saga, delete_ids) = saga.merged(bundle);
    assert_eq!(delete_ids, vec!["dbid", "upid"]);

    // deletion failure is tolerated: the saga still completes with the bundle
    let (saga, done) = saga.cleanup_finished(false);
    assert!(matches!(saga.state, BundleState::Complete { .. }));
    assert_eq!(done.id, "bid");
    assert_eq!(done.get_stats().unwrap().new, 3);
    assert_eq!(done.get_stats().unwrap().data_added, 200);
}

#[test]
fn test_bundle_saga_unresolved_parent_falls_back_to_automatic() {
    let (saga, _) = BundleSaga::start(
        "proj".to_string(),
        "main".to_string(),
        None,
        false,
        Some("gone".to_string()),
    );
    let db = engine_record("dbid", "proj", 100, vec![], 0, 0, 0, 0);
    let (_, up_req) = saga.database_backed_up(db, None);
    assert_eq!(up_req.parent, None);
}

#[test]
fn test_bundle_saga_overflow_is_an_engine_error() {
    let (saga, _) = BundleSaga::start("p".to_string(), "main".to_string(), None, true, None);
    let db = engine_record("d", "p", 1, vec![], u64::MAX, 0, 0, 0);
    let (saga, _) = saga.database_backed_up(db, None);
    let uploads = engine_record("u", "p", 2, vec![], 1, 0, 0, 0);
    match saga.uploads_backed_up(uploads) {
        Err(SproutError::EngineError(_)) => {}
        other => panic!("expected an engine error, got {:?}", other.is_ok()),
    }
}

#[test]
fn test_identity_guard() {
    // two distinct identities on the same branch always conflict
    assert_eq!(
        preflight_identity(&Some("h1".to_string()), &Some("h2".to_string())),
        Err(SproutError::IdentityConflict)
    );
    assert_eq!(
        preflight_identity(&Some("h1".to_string()), &Some("h1".to_string())),
        Ok(IdentityStatus::Verified)
    );
    assert_eq!(
        preflight_identity(&None, &Some("h1".to_string())),
        Ok(IdentityStatus::NewBranch)
    );
    assert_eq!(
        preflight_identity(&Some("h1".to_string()), &None),
        Ok(IdentityStatus::Untracked)
    );
}

#[test]
fn test_two_bundles_active_resolves_to_newest() {
    // two consecutive bundle creations on one branch; the active-bundle
    // query resolves to the second
    let mut repo: Vec<Snapshot> = vec![];
    for (ordinal, time) in [("first", 100i64), ("second", 200i64)] {
        let (saga, _db_req) = BundleSaga::start(
            "proj".to_string(),
            "main".to_string(),
            Some("hash1".to_string()),
            true,
            None,
        );
        let db = engine_record(&format!("db-{}", ordinal), "proj", time, vec![], 1, 0, 0, 10);
        let (saga, _up_req) = saga.database_backed_up(db, None);
        let uploads = engine_record(&format!("up-{}", ordinal), "proj", time, vec![], 5, 0, 0, 90);
        let (saga, merge_req) = saga.uploads_backed_up(uploads).unwrap();
        let bundle = engine_record(
            &format!("bundle-{}", ordinal),
            "proj",
            time,
            merge_req.tags.clone(),
            6,
            0,
            0,
            100,
        );
        let (saga, _delete_ids) = saga.merged(bundle);
        let (_saga, done) = saga.cleanup_finished(true);
        repo.push(done);
    }

    let project = sprout::project::Project::new(
        "/proj".to_string(),
        sprout::project::ProjectConfig {
            name: "proj".to_string(),
            branch: "main".to_string(),
            snapshot: None,
            uploads_path: "uploads".to_string(),
            repo: "r".to_string(),
        },
        Some("hash1".to_string()),
    )
    .unwrap();
    let active = project.get_active_snapshot(&repo).unwrap();
    assert_eq!(active.id, "bundle-second");
    // both bundles carry the same identity, so a third creation passes the guard
    let latest_hash = get_latest_unique_hash(&repo, "proj", "main");
    assert_eq!(latest_hash, Some("hash1".to_string()));
    assert!(preflight_identity(&latest_hash, &Some("hash1".to_string())).is_ok());
}
