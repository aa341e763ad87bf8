use gh_autopr::branches::{find_stash, parse_branch_line, AUTOSTASH_MESSAGE};
use gh_autopr::repo::patch_dirs;
use gh_autopr::snapshot::split_entries;

#[test]
fn branch_lines_are_read() {
    assert_eq!(
        parse_branch_line("* main                 1234567 [origin/main] Latest commit"),
        Some(("main".to_string(), Some("origin/main".to_string())))
    );
    assert_eq!(
        parse_branch_line("  feature-branch       abcdef1 [origin/feature-branch: ahead 1] Add feature"),
        Some(("feature-branch".to_string(), Some("origin/feature-branch".to_string())))
    );
    assert_eq!(
        parse_branch_line("  local-only 89abcde Work in progress"),
        Some(("local-only".to_string(), None))
    );
    assert_eq!(parse_branch_line("   "), None);
    assert_eq!(parse_branch_line("* detached"), None);
    assert_eq!(parse_branch_line("  odd 1234567 ] then ["), Some(("odd".to_string(), None)));
}

#[test]
fn patch_header_directories() {
    let patch = "diff --git a/src/x.rs b/src/x.rs\n--- a/src/x.rs\n+++ b/src/x.rs\n@@ -1 +1 @@\n-a\n+b\n--- /dev/null\n+++ b/docs/guide/new.md\r\n+++ b/top.txt\n+++ b/src/y.rs\n";
    assert_eq!(patch_dirs(patch), vec!["a/src", "src", "docs/guide"]);
    assert_eq!(patch_dirs(""), Vec::<String>::new());
}

#[test]
fn split_entries_by_line() {
    assert_eq!(split_entries("a\n\nb\n", '\n'), vec!["a", "b"]);
}

#[test]
fn stash_entry_is_found_by_message() {
    let list = "stash@{0}:WIP on main: 123 x\nstash@{1}:On gh-autopr-index-autocommit: gh-autopr-index-autostash\nstash@{2}:On gh-autopr-index-autocommit: gh-autopr-index-autostash\n";
    assert_eq!(find_stash(list, AUTOSTASH_MESSAGE), Some("stash@{1}".to_string()));
    assert_eq!(find_stash("stash@{0}:other", AUTOSTASH_MESSAGE), None);
    assert_eq!(find_stash("", AUTOSTASH_MESSAGE), None);
}
