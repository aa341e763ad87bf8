use gh_autopr::branches::{
    choose_diff_base, choose_parent_branch, first_line, local_branch_name, nearest_ancestor, pr_base_branch,
    AncestorCandidate,
};
use gh_autopr::forge::{
    choose_pr_action, contains_text, issues_listing, merged_pull_requests, open_pr_listed, pr_create_args,
    pr_edit_args, pr_label, prune_action, was_merged, PrAction, PruneAction,
};
use gh_autopr::reply::{interpret_reply, narrative_from_fields, ReplyError};
use gh_autopr::repo::{
    commit_message, description_diff, fetch_main_args, new_branch_args, push_args, refuse_new_branch, sync_plan,
    SyncPlan, MAX_DIFF_BYTES,
};

#[test]
fn test_json_parsing() {
    let reply = "{\"branch_name\": \"feature/add-tests\", \"commit_title\": \"feat(tests): add comprehensive test coverage\", \"commit_details\": \"## What\\n\\nAdded unit tests for all modules\\n\\n## Why\\n\\nTo improve code quality and reliability\"}";
    let n = interpret_reply(reply).unwrap();
    assert_eq!(n.branch_name, "feature/add-tests");
    assert_eq!(n.commit_title, "feat(tests): add comprehensive test coverage");
    assert!(n.commit_details.is_some());
    assert_eq!(
        n.commit_details.as_deref(),
        Some("## What\n\nAdded unit tests for all modules\n\n## Why\n\nTo improve code quality and reliability")
    );
}

#[test]
fn fenced_reply_is_unwrapped() {
    let n = interpret_reply("```json\n{\"branch_name\": \"a/b\", \"commit_title\": \"t\"}\n```").unwrap();
    assert_eq!(n.branch_name, "a/b");
    assert_eq!(n.commit_title, "t");
}

#[test]
fn test_json_parsing_with_null_details() {
    let n = interpret_reply("{\"branch_name\": \"fix/small-bug\", \"commit_title\": \"fix: resolve minor issue\", \"commit_details\": null}").unwrap();
    assert_eq!(n.branch_name, "fix/small-bug");
    assert_eq!(n.commit_title, "fix: resolve minor issue");
    assert!(n.commit_details.is_none());
}

#[test]
fn test_fallback_values() {
    let n = interpret_reply("{\"some_other_field\": \"value\"}").unwrap();
    assert_eq!(n.branch_name, "my-pr-branch");
    assert_eq!(n.commit_title, "Generic commit title");
    assert!(n.commit_details.is_none());
}

#[test]
fn reply_errors() {
    assert_eq!(interpret_reply("not json").err(), Some(ReplyError::NotJson));
    assert_eq!(
        interpret_reply("{\"branch_name\": \"feat(x): y\"}").err(),
        Some(ReplyError::InvalidBranchName { name: "feat(x): y".to_string() })
    );
    assert_eq!(
        narrative_from_fields(Some("bad name".to_string()), None, None).err(),
        Some(ReplyError::InvalidBranchName { name: "bad name".to_string() })
    );
    let n = narrative_from_fields(None, Some("t".to_string()), Some("d".to_string())).unwrap();
    assert_eq!(n.branch_name, "my-pr-branch");
    assert_eq!(n.commit_title, "t");
    assert_eq!(n.commit_details.as_deref(), Some("d"));
}

#[test]
fn remote_prefix_and_first_line() {
    assert_eq!(local_branch_name("  origin/main\n"), "main");
    assert_eq!(local_branch_name("origin/origin/x"), "x");
    assert_eq!(local_branch_name("feature"), "feature");
    assert_eq!(first_line("a\r\nb"), "a");
    assert_eq!(first_line("abc"), "abc");
    assert_eq!(first_line("\nabc"), "");
}

#[test]
fn pr_base_is_read_from_listing() {
    assert_eq!(pr_base_branch("[{\"baseRefName\":\"develop\"}]\n"), Some("develop".to_string()));
    assert_eq!(pr_base_branch("[]"), None);
    assert_eq!(pr_base_branch("  \n"), None);
    assert_eq!(pr_base_branch("[{\"other\":1}]"), None);
    assert_eq!(pr_base_branch("garbage"), None);
}

#[test]
fn diff_base_prefers_pr_then_previous_then_fallback() {
    assert_eq!(choose_diff_base(Some("dev".to_string()), Some("origin/x"), "main"), "dev");
    assert_eq!(choose_diff_base(None, Some("origin/x\n"), "main"), "x");
    assert_eq!(choose_diff_base(None, Some("  "), "main"), "main");
    assert_eq!(choose_diff_base(None, None, "main"), "main");
}

fn cand(name: &str, is_ancestor: bool, distance: u64) -> AncestorCandidate {
    AncestorCandidate { name: name.to_string(), is_ancestor, distance }
}

#[test]
fn test_discover_parent_branch_main_branch() {
    let result = choose_parent_branch("main", "main", None, &Vec::new());
    assert_eq!(result, "main");
}

#[test]
fn test_discover_parent_branch_main() {
    let result = choose_parent_branch("main", "main", None, &Vec::new());
    assert_eq!(result, "main");
    let with_upstream = choose_parent_branch("main", "main", Some("origin/develop"), &vec![cand("develop", true, 1)]);
    assert_eq!(with_upstream, "main");
}

#[test]
fn parent_branch_choice() {
    let cands = vec![cand("child", true, 0), cand("a", true, 5), cand("b", false, 1), cand("c", true, 2), cand("d", true, 2)];
    assert_eq!(nearest_ancestor(&cands, "child"), Some(3));
    assert_eq!(choose_parent_branch("main", "child", None, &cands), "c");
    assert_eq!(choose_parent_branch("main", "child", Some("origin/feature-a"), &cands), "feature-a");
    assert_eq!(choose_parent_branch("main", "child", Some("origin/main"), &cands), "c");
    assert_eq!(choose_parent_branch("main", "child", None, &vec![cand("b", false, 1)]), "main");
}

#[test]
fn pr_listing_and_actions() {
    assert!(open_pr_listed(true, "42\tfeat: x\tbranch\tOPEN\n"));
    assert!(!open_pr_listed(true, "  \n"));
    assert!(!open_pr_listed(true, "no pull requests match your search in o/r"));
    assert!(!open_pr_listed(false, "42"));
    assert_eq!(choose_pr_action(false, true), PrAction::Create);
    assert_eq!(choose_pr_action(true, true), PrAction::Update);
    assert_eq!(choose_pr_action(true, false), PrAction::NothingToUpdate);
}

#[test]
fn pr_arguments() {
    assert_eq!(
        pr_create_args("T", "B", "feat", "main", false),
        vec!["pr", "create", "--title", "T", "--body", "B", "--assignee", "@me", "--head", "feat", "--base", "main", "--draft"]
    );
    assert_eq!(pr_create_args("T", "B", "feat", "main", true).len(), 12);
    assert_eq!(pr_edit_args("T", "B"), vec!["pr", "edit", "--title", "T", "--body", "B", "--add-assignee", "@me"]);
}

#[test]
fn issues_listing_outcomes() {
    assert_eq!(issues_listing(true, "[{}]".to_string(), ""), Some("[{}]".to_string()));
    assert_eq!(
        issues_listing(false, String::new(), "the repo o/r has disabled issues"),
        Some("[]".to_string())
    );
    assert_eq!(issues_listing(false, String::new(), "HTTP 401"), None);
    assert!(contains_text("abc", ""));
    assert!(contains_text("abc", "bc"));
    assert!(!contains_text("abc", "cd"));
}

#[test]
fn merged_prs_and_pruning() {
    let listing = "[{\"headRefName\":\"feat/a\",\"number\":12,\"title\":\"x\"},{\"number\":3},{\"headRefName\":\"fix/b\",\"number\":7}]";
    let merged = merged_pull_requests(listing).unwrap();
    assert_eq!(merged, vec![("feat/a".to_string(), 12), ("fix/b".to_string(), 7)]);
    assert_eq!(merged_pull_requests("{}"), None);
    assert_eq!(merged_pull_requests("nope"), None);
    assert_eq!(pr_label(12), "PR #12");
    assert!(was_merged(&merged, "fix/b"));
    assert!(!was_merged(&merged, "main"));
    assert_eq!(prune_action("dev", "dev", "main", true, true), PruneAction::KeepCurrent);
    assert_eq!(prune_action("main", "dev", "main", true, true), PruneAction::KeepMain);
    assert_eq!(prune_action("feat/a", "dev", "main", true, false), PruneAction::DeleteMerged);
    assert_eq!(prune_action("x", "dev", "main", false, true), PruneAction::CheckRemote);
    assert_eq!(prune_action("x", "dev", "main", false, false), PruneAction::KeepUntracked);
}

#[test]
fn repository_decisions() {
    assert_eq!(commit_message("  fix: x \n", Some(" body\n")), "fix: x\n\nbody");
    assert_eq!(commit_message("fix: x", None), "fix: x");
    assert_eq!(push_args("feat", true), vec!["push", "origin", "feat"]);
    assert_eq!(push_args("feat", false), vec!["push", "--set-upstream", "origin", "feat"]);
    assert!(refuse_new_branch(true, false));
    assert!(!refuse_new_branch(true, true));
    assert!(!refuse_new_branch(false, false));
    assert_eq!(new_branch_args("b", "a"), vec!["checkout", "-B", "b", "a"]);
    assert_eq!(sync_plan("main", "main", true), SyncPlan::PullPreservingDirtyState);
    assert_eq!(sync_plan("main", "main", false), SyncPlan::Pull);
    assert_eq!(sync_plan("dev", "main", true), SyncPlan::FetchMain);
    assert_eq!(fetch_main_args("main"), vec!["fetch", "origin", "main:main"]);
}

#[test]
fn description_diff_trims_and_cuts() {
    assert_eq!(description_diff("  \n"), None);
    assert_eq!(description_diff("\ndiff --git a b\n"), Some("diff --git a b".to_string()));
    let big = "y".repeat(MAX_DIFF_BYTES + 10);
    assert_eq!(description_diff(&big).unwrap().len(), MAX_DIFF_BYTES);
    assert_eq!(MAX_DIFF_BYTES, 200 * 1024);
}

#[test]
fn detached_head_is_recognised() {
    assert!(gh_autopr::repo::is_detached_head("HEAD"));
    assert!(!gh_autopr::repo::is_detached_head("main"));
}
