use gh_autopr::patch_cache::{
    is_fresh, parse_patch_file_name, patch_file_name, select_reusable, stale_patch_files, PatchFileName,
    PatchKind, REUSE_WINDOW_SECS,
};

fn names(list: &[&str]) -> Vec<String> {
    list.iter().map(|s| s.to_string()).collect()
}

#[test]
fn test_timestamp_parsing() {
    let extract_timestamp = |filename: &str| -> Option<u64> { parse_patch_file_name(filename).map(|p| p.timestamp) };
    assert_eq!(extract_timestamp("staged-1752184677.patch"), Some(1752184677));
    assert_eq!(extract_timestamp("unstaged-1752184677.patch"), Some(1752184677));
    assert_eq!(extract_timestamp("invalid-file.patch"), None);
}

#[test]
fn test_patch_filename_validation() {
    let is_valid_patch = |filename: &str| -> bool { parse_patch_file_name(filename).is_some() };
    assert!(is_valid_patch("staged-1234567890.patch"));
    assert!(is_valid_patch("unstaged-1234567890.patch"));
    assert!(!is_valid_patch("readme.txt"));
    assert!(!is_valid_patch("staged-1234567890.txt"));
    assert!(!is_valid_patch("staged-.patch"));
}

#[test]
fn parse_reports_kind() {
    assert_eq!(
        parse_patch_file_name("staged-42.patch"),
        Some(PatchFileName { kind: PatchKind::Staged, timestamp: 42 })
    );
    assert_eq!(
        parse_patch_file_name("unstaged-0.patch"),
        Some(PatchFileName { kind: PatchKind::Unstaged, timestamp: 0 })
    );
    assert_eq!(parse_patch_file_name("staged-12a.patch"), None);
    assert_eq!(parse_patch_file_name("staged-99999999999999999999.patch"), None);
    assert_eq!(parse_patch_file_name(".patch"), None);
    assert_eq!(parse_patch_file_name("staged-"), None);
    assert_eq!(parse_patch_file_name("unstaged-"), None);
}

#[test]
fn written_names_read_back() {
    assert_eq!(patch_file_name(PatchKind::Staged, 1752184677), "staged-1752184677.patch");
    assert_eq!(patch_file_name(PatchKind::Unstaged, 7), "unstaged-7.patch");
    for (kind, ts) in [(PatchKind::Staged, 0u64), (PatchKind::Unstaged, u64::MAX), (PatchKind::Staged, 10)] {
        let name = patch_file_name(kind, ts);
        assert_eq!(parse_patch_file_name(&name), Some(PatchFileName { kind, timestamp: ts }));
    }
}

#[test]
fn freshness_boundary_is_ten_seconds_inclusive() {
    let now = 1_000_000u64;
    assert_eq!(REUSE_WINDOW_SECS, 10);
    assert!(is_fresh(now, now - 10));
    assert!(!is_fresh(now, now - 11));
    assert!(is_fresh(now, now));
    assert!(!is_fresh(now, now + 1));
}

#[test]
fn reuse_picks_newest_fresh_patch_of_each_kind() {
    let now = 2_000u64;
    let list = names(&[
        "staged-1995.patch",
        "notes.txt",
        "staged-1998.patch",
        "unstaged-1989.patch",
        "unstaged-1990.patch",
        "staged-2001.patch",
    ]);
    let plan = select_reusable(now, &list);
    assert_eq!(plan.staged, Some(2));
    assert_eq!(plan.unstaged, Some(4));
}

#[test]
fn reuse_finds_nothing_when_all_stale() {
    let list = names(&["staged-100.patch", "unstaged-50.patch", "readme.txt"]);
    let plan = select_reusable(1000, &list);
    assert_eq!(plan.staged, None);
    assert_eq!(plan.unstaged, None);
    let empty: Vec<String> = Vec::new();
    let plan = select_reusable(1000, &empty);
    assert_eq!(plan.staged, None);
    assert_eq!(plan.unstaged, None);
}

#[test]
fn stale_files_are_older_than_the_cutoff() {
    let day = 86_400u64;
    let now = 10 * day;
    let list = names(&[
        "staged-100.patch",
        "unstaged-863000.patch",
        "other.txt",
        "unstaged-691200.patch",
        "staged-691199.patch",
    ]);
    assert_eq!(stale_patch_files(now, 2, &list), vec![0, 4]);
    assert_eq!(stale_patch_files(now, 0, &list), vec![0, 1, 3, 4]);
    assert_eq!(stale_patch_files(now, u64::MAX, &list), Vec::<usize>::new());
}
