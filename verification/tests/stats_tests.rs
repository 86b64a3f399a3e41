use sprout::errors::SproutError;
use sprout::snapshot::Snapshot;
use sprout::stats::{format_stats, parse_stats, sum_stats, SnapshotStats, SnapshotSummary};

fn summary(new: u64, changed: u64, unmodified: u64, data_added: u64) -> SnapshotSummary {
    SnapshotSummary {
        files_new: new,
        files_changed: changed,
        files_unmodified: unmodified,
        data_added,
        total_files_processed: new + changed + unmodified,
        total_bytes_processed: data_added,
    }
}

#[test]
fn test_format_stats_exact() {
    let st = SnapshotStats { new: 12, changed: 0, unmodified: 7, data_added: 1048576 };
    assert_eq!(format_stats(&st), "12/0/7/1048576");
}

#[test]
fn test_parse_stats_round_trip() {
    let st = SnapshotStats { new: 5, changed: 3, unmodified: 2, data_added: 999 };
    assert_eq!(parse_stats(&format_stats(&st)), Some(st));
    let max = SnapshotStats {
        new: u64::MAX,
        changed: 0,
        unmodified: u64::MAX,
        data_added: 1,
    };
    assert_eq!(parse_stats(&format_stats(&max)), Some(max));
}

#[test]
fn test_parse_stats_missing_parts_default_to_zero() {
    assert_eq!(
        parse_stats("1/2"),
        Some(SnapshotStats { new: 1, changed: 2, unmodified: 0, data_added: 0 })
    );
    assert_eq!(
        parse_stats("7"),
        Some(SnapshotStats { new: 7, changed: 0, unmodified: 0, data_added: 0 })
    );
}

#[test]
fn test_parse_stats_rejects_junk() {
    assert_eq!(parse_stats(""), None);
    assert_eq!(parse_stats("a/b/c/d"), None);
    assert_eq!(parse_stats("1/2/x/4"), None);
    assert_eq!(parse_stats("1//3/4"), None);
    // one past u64::MAX
    assert_eq!(parse_stats("18446744073709551616/0/0/0"), None);
}

#[test]
fn test_sum_stats_adds_counts() {
    let a = summary(1, 2, 3, 100);
    let b = summary(10, 20, 30, 900);
    assert_eq!(
        sum_stats(&a, &b),
        Some(SnapshotStats { new: 11, changed: 22, unmodified: 33, data_added: 1000 })
    );
}

#[test]
fn test_sum_stats_overflow_is_refused() {
    let a = summary(u64::MAX, 0, 0, 0);
    let b = summary(1, 0, 0, 0);
    assert_eq!(sum_stats(&a, &b), None);
}

#[test]
fn test_pack_stats_packs_summed_counts() {
    let db = Snapshot {
        id: "d".to_string(),
        hostname: "p".to_string(),
        time: 1,
        tags: vec![],
        summary: Some(summary(1, 0, 4, 50)),
    };
    let up = Snapshot {
        id: "u".to_string(),
        hostname: "p".to_string(),
        time: 2,
        tags: vec![],
        summary: Some(summary(2, 3, 6, 150)),
    };
    assert_eq!(Snapshot::pack_stats(&db, &up), Ok("3/3/10/200".to_string()));
}

#[test]
fn test_get_stats_decodes_packed_tag() {
    let s = Snapshot {
        id: "b".to_string(),
        hostname: "p".to_string(),
        time: 3,
        tags: vec!["sprt_obj:bundle".to_string(), "sprt_stats:3/3/10/200".to_string()],
        summary: None,
    };
    assert_eq!(
        s.get_stats(),
        Ok(SnapshotStats { new: 3, changed: 3, unmodified: 10, data_added: 200 })
    );
}

#[test]
fn test_get_stats_malformed_tag() {
    let s = Snapshot {
        id: "b".to_string(),
        hostname: "p".to_string(),
        time: 3,
        tags: vec!["sprt_stats:nope".to_string()],
        summary: None,
    };
    assert_eq!(s.get_stats(), Err(SproutError::ConfigError));
}

#[test]
fn test_totals_default_to_zero_without_summary() {
    let s = Snapshot {
        id: "b".to_string(),
        hostname: "p".to_string(),
        time: 3,
        tags: vec![],
        summary: None,
    };
    assert_eq!(s.get_total_files(), 0);
    assert_eq!(s.get_total_bytes(), 0);
    let t = Snapshot {
        summary: Some(summary(1, 2, 3, 44)),
        ..s
    };
    assert_eq!(t.get_total_files(), 6);
    assert_eq!(t.get_total_bytes(), 44);
}
