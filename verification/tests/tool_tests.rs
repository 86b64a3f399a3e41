use sprout::cli::{branch_switch_target, seed_guard};
use sprout::definition::{BackendLocator, RepositoryDefinition};
use sprout::engine::{Engine, SproutConfig};
use sprout::errors::SproutError;
use sprout::facts::identity_hash_of_revision;
use sprout::project::{Project, ProjectConfig};
use sprout::stash::{generate_stash_key, Stash};

#[test]
fn test_engine_paths() {
    let engine = Engine { sprout_home: "/home/me/.sprout".to_string() };
    assert_eq!(engine.get_home(), "/home/me/.sprout");
    assert_eq!(engine.get_stash_path(), "/home/me/.sprout/stash");
}

#[test]
fn test_should_check_for_updates() {
    let engine = Engine { sprout_home: "/h".to_string() };
    let mut config = SproutConfig::default();
    assert_eq!(config.last_update_check, 0);
    assert!(engine.should_check_for_updates(&config, 86400));
    config.last_update_check = 1000;
    assert!(!engine.should_check_for_updates(&config, 87399));
    assert!(engine.should_check_for_updates(&config, 87400));
}

#[test]
fn test_record_update_check() {
    let engine = Engine { sprout_home: "/h".to_string() };
    let mut config = SproutConfig::default();
    config.stash_key = "secret".to_string();
    engine.record_update_check(&mut config, 5000, Some("1.2.3".to_string()));
    assert_eq!(config.last_update_check, 5000);
    assert_eq!(config.update_available, Some("1.2.3".to_string()));
    assert_eq!(config.stash_key, "secret");
}

#[test]
fn test_identity_hash_of_revision() {
    // SHA-224 of "abc", in lowercase hex
    assert_eq!(
        identity_hash_of_revision("abc"),
        "23097d223405d8228642a477bda255b32aadbce4bda0b3f7e36c9da7"
    );
    // the empty revision still hashes to 56 hex digits
    assert_eq!(
        identity_hash_of_revision(""),
        "d14a028c2a3a2bc9476102bb288234c415a2b01f828ea62ac5b3e42f"
    );
}

#[test]
fn test_generate_stash_key_length() {
    let k1 = generate_stash_key();
    let k2 = generate_stash_key();
    assert_eq!(k1.chars().count(), 32);
    assert_eq!(k2.chars().count(), 32);
}

#[test]
fn test_stash_uses_automatic_parent() {
    let project = Project::new(
        "/proj".to_string(),
        ProjectConfig {
            name: "p".to_string(),
            branch: "main".to_string(),
            snapshot: Some("recorded".to_string()),
            uploads_path: "uploads".to_string(),
            repo: "r".to_string(),
        },
        Some("h".to_string()),
    )
    .unwrap();
    let stash = Stash::new("/home/me/.sprout/stash".to_string());
    assert_eq!(stash.path, "/home/me/.sprout/stash");
    let (saga, db_req) = stash.stash(&project);
    assert!(saga.automatic_parent);
    assert_eq!(db_req.parent, None);
    assert_eq!(db_req.host, "p");
}

#[test]
fn test_display_path() {
    let plain = RepositoryDefinition {
        repo_key: "k".to_string(),
        repo: BackendLocator {
            repository: Some("/mnt/backups".to_string()),
            options: vec![],
        },
    };
    assert_eq!(
        RepositoryDefinition::display_path(&plain),
        Ok("/mnt/backups".to_string())
    );

    let s3 = RepositoryDefinition {
        repo_key: "k".to_string(),
        repo: BackendLocator {
            repository: Some("opendal:s3".to_string()),
            options: vec![
                ("bucket".to_string(), "mybucket".to_string()),
                ("region".to_string(), "eu-west-1".to_string()),
            ],
        },
    };
    assert_eq!(
        RepositoryDefinition::display_path(&s3),
        Ok("opendal:s3 (region: eu-west-1, bucket: mybucket, endpoint: ???)".to_string())
    );

    let none = RepositoryDefinition {
        repo_key: "k".to_string(),
        repo: BackendLocator { repository: None, options: vec![] },
    };
    assert_eq!(RepositoryDefinition::display_path(&none), Ok("???".to_string()));
}

#[test]
fn test_branch_switch_target() {
    assert_eq!(branch_switch_target(&None, "main"), None);
    assert_eq!(branch_switch_target(&Some("main".to_string()), "main"), None);
    assert_eq!(
        branch_switch_target(&Some("feature".to_string()), "main"),
        Some("feature".to_string())
    );
}

#[test]
fn test_seed_guard() {
    assert_eq!(seed_guard("h1", &Some("h1".to_string()), true), Ok(true));
    assert_eq!(
        seed_guard("h1", &Some("h2".to_string()), true),
        Err(SproutError::IdentityConflict)
    );
    assert_eq!(seed_guard("h1", &Some("h2".to_string()), false), Ok(false));
    assert_eq!(seed_guard("h1", &None, false), Ok(false));
}

#[test]
fn test_error_messages() {
    assert!(!SproutError::IdentityConflict.message().is_empty());
    assert_eq!(
        SproutError::EngineError("boom".to_string()).message(),
        "boom"
    );
    assert_eq!(
        SproutError::ContentProviderError("wp failed".to_string()).message(),
        "wp failed"
    );
    assert!(!SproutError::NotFound.message().is_empty());
    assert!(!SproutError::PathSafety.message().is_empty());
    assert!(!SproutError::ConfigError.message().is_empty());
}

#[test]
fn test_expand_var() {
    let vars: Vec<(String, String)> = vec![
        ("HOME_DIR".to_string(), "/home/me".to_string()),
        ("X1".to_string(), "one".to_string()),
    ];
    assert_eq!(
        sprout::engine::expand_var("repository: ${HOME_DIR}/repo", &vars),
        "repository: /home/me/repo"
    );
    // an unknown variable keeps the reference as written
    assert_eq!(
        sprout::engine::expand_var("${MISSING}/x", &vars),
        "${MISSING}/x"
    );
    // malformed references are copied through
    assert_eq!(sprout::engine::expand_var("${}", &vars), "${}");
    assert_eq!(sprout::engine::expand_var("${1X}", &vars), "${1X}");
    assert_eq!(sprout::engine::expand_var("${X1", &vars), "${X1");
    assert_eq!(sprout::engine::expand_var("$HOME_DIR", &vars), "$HOME_DIR");
    // adjacent references both expand
    assert_eq!(sprout::engine::expand_var("${X1}${X1}", &vars), "oneone");
    assert_eq!(sprout::engine::expand_var("", &vars), "");
}
