use sprout::reconcile::{compute_deletions, contains_path};

fn strings(xs: &[&str]) -> Vec<String> {
    xs.iter().map(|s| s.to_string()).collect()
}

#[test]
fn test_reconciliation_example() {
    // local = {1.txt, 3.txt}, target = {3.txt, 4.txt}: only 1.txt is stale.
    let local = strings(&["1.txt", "3.txt"]);
    let remote = strings(&["3.txt", "4.txt"]);
    let to_delete = compute_deletions(&local, &remote);
    assert_eq!(to_delete, strings(&["1.txt"]));
}

#[test]
fn test_reconciliation_restores_target_set() {
    let local = strings(&["1.txt", "3.txt", "sub/5.txt"]);
    let remote = strings(&["3.txt", "4.txt"]);
    let to_delete = compute_deletions(&local, &remote);
    // survivors = local minus deletions; final = survivors plus remote
    let mut fin: Vec<String> = local
        .iter()
        .filter(|p| !to_delete.contains(p))
        .cloned()
        .collect();
    for p in &remote {
        if !fin.contains(p) {
            fin.push(p.clone());
        }
    }
    fin.sort();
    let mut expected = remote.clone();
    expected.sort();
    assert_eq!(fin, expected);
}

#[test]
fn test_deletions_empty_when_local_subset_of_remote() {
    let local = strings(&["a", "b"]);
    let remote = strings(&["a", "b", "c"]);
    assert!(compute_deletions(&local, &remote).is_empty());
}

#[test]
fn test_deletions_whole_local_when_remote_empty() {
    let local = strings(&["a", "b"]);
    let remote = strings(&[]);
    assert_eq!(compute_deletions(&local, &remote), strings(&["a", "b"]));
}

#[test]
fn test_deletions_are_deduplicated() {
    let local = strings(&["a", "a", "b"]);
    let remote = strings(&["b"]);
    assert_eq!(compute_deletions(&local, &remote), strings(&["a"]));
}

#[test]
fn test_contains_path_is_exact() {
    let paths = strings(&["a/b.txt"]);
    assert!(contains_path(&paths, "a/b.txt"));
    assert!(!contains_path(&paths, "a/b"));
}
