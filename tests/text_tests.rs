use gh_autopr::reply::{clip_issues, strip_code_fence, MAX_ISSUES_LEN};
use gh_autopr::text::{is_valid_git_branch_name, truncate_utf8};

#[test]
fn tests_test_truncate_utf8() {
    let text = "Hello, world!";
    let result = truncate_utf8(text, 10);
    assert_eq!(result, "Hello, wor");

    let text = "Hello, 世界!";
    let result = truncate_utf8(text, 10);
    assert!(result.len() <= 10);
    assert!(result.is_ascii() || result.chars().all(|c| c.is_ascii() || c as u32 > 127));

    let text = "Short";
    let result = truncate_utf8(text, 100);
    assert_eq!(result, "Short");
}

#[test]
fn git_ops_tests_test_truncate_utf8() {
    let text = "Hello, world!";
    let result = truncate_utf8(text, 10);
    assert_eq!(result, "Hello, wor");

    let text = "Hello, 世界!";
    let result = truncate_utf8(text, 10);
    assert!(result.len() <= 10);
    assert!(result.is_ascii() || result.chars().all(|c| c.is_ascii() || c as u32 > 127));

    let text = "Short";
    let result = truncate_utf8(text, 100);
    assert_eq!(result, "Short");
}

#[test]
fn test_truncate_utf8_boundary() {
    let text = "Hello, 世界!";
    let result = truncate_utf8(text, 8);
    assert!(result.is_char_boundary(result.len()));
    assert!(result.len() <= 8);
}

#[test]
fn truncate_utf8_backs_up_to_character_start() {
    // "世" takes bytes 7..10; a cut at 8 or 9 falls inside it.
    assert_eq!(truncate_utf8("Hello, 世界!", 8), "Hello, ");
    assert_eq!(truncate_utf8("Hello, 世界!", 9), "Hello, ");
    assert_eq!(truncate_utf8("Hello, 世界!", 10), "Hello, 世");
    assert_eq!(truncate_utf8("abc", 0), "");
    assert_eq!(truncate_utf8("", 5), "");
    assert_eq!(truncate_utf8("abc", 3), "abc");
}

#[test]
fn test_issues_truncation() {
    let large_issues = "x".repeat(MAX_ISSUES_LEN + 1000);
    let truncated = clip_issues(&large_issues);
    assert_eq!(truncated.len(), MAX_ISSUES_LEN);
}

#[test]
fn clip_issues_keeps_short_listing() {
    assert_eq!(clip_issues("[]"), "[]");
    assert_eq!(MAX_ISSUES_LEN, 16 * 1024);
}

#[test]
fn test_response_cleaning() {
    let response_with_markdown = "```json\n{\"test\": \"value\"}\n```";
    let cleaned = strip_code_fence(response_with_markdown);
    assert_eq!(cleaned, "\n{\"test\": \"value\"}\n");

    let response_plain = "{\"test\": \"value\"}";
    let cleaned = strip_code_fence(response_plain);
    assert_eq!(cleaned, "{\"test\": \"value\"}");
}

#[test]
fn strip_code_fence_trims_whitespace_and_bare_fences() {
    assert_eq!(strip_code_fence("  ```\n{}\n```  "), "\n{}\n");
    assert_eq!(strip_code_fence("  {} \n"), "{}");
}

#[test]
fn test_conventional_commits_examples() {
    let system_message = "feat(api)!: send an email to the customer when a product is shipped";
    assert!(system_message.contains("(api)"));
    assert!(system_message.contains("!"));
    assert!(system_message.starts_with("feat"));
    assert!(system_message.contains(":"));
}

#[test]
fn test_valid_git_branch_names() {
    assert!(is_valid_git_branch_name("feature/add-tests"));
    assert!(is_valid_git_branch_name("fix-memory-leak"));
    assert!(is_valid_git_branch_name("feat/worktree-update"));
    assert!(is_valid_git_branch_name("release/v1.0.0"));
    assert!(is_valid_git_branch_name("hotfix/security-patch"));
    assert!(is_valid_git_branch_name("main"));
    assert!(is_valid_git_branch_name("develop"));
    assert!(is_valid_git_branch_name("feature_branch"));
    assert!(is_valid_git_branch_name("123-fix-issue"));
    assert!(is_valid_git_branch_name("user/feature"));
}

#[test]
fn test_invalid_git_branch_names() {
    assert!(!is_valid_git_branch_name("feat(worktree): update"));
    assert!(!is_valid_git_branch_name("fix memory leak"));
    assert!(!is_valid_git_branch_name("feature: add validation"));
    assert!(!is_valid_git_branch_name("branch with spaces"));
    assert!(!is_valid_git_branch_name(""));
    assert!(!is_valid_git_branch_name("-"));
    assert!(!is_valid_git_branch_name(".hidden"));
    assert!(!is_valid_git_branch_name("branch."));
    assert!(!is_valid_git_branch_name("branch..name"));
    assert!(!is_valid_git_branch_name("branch@name"));
    assert!(!is_valid_git_branch_name("branch#name"));
    assert!(!is_valid_git_branch_name("branch$name"));
    assert!(!is_valid_git_branch_name("branch%name"));
    assert!(!is_valid_git_branch_name("branch^name"));
    assert!(!is_valid_git_branch_name("branch&name"));
    assert!(!is_valid_git_branch_name("branch*name"));
    assert!(!is_valid_git_branch_name("branch(name)"));
    assert!(!is_valid_git_branch_name("branch[name]"));
    assert!(!is_valid_git_branch_name("branch{name}"));
    assert!(!is_valid_git_branch_name("branch|name"));
    assert!(!is_valid_git_branch_name("branch\\name"));
    assert!(!is_valid_git_branch_name("branch?name"));
    assert!(!is_valid_git_branch_name("branch<name>"));
    assert!(!is_valid_git_branch_name("branch,name"));
    assert!(!is_valid_git_branch_name("branch;name"));
    assert!(!is_valid_git_branch_name("branch:name"));
    assert!(!is_valid_git_branch_name("branch\"name"));
    assert!(!is_valid_git_branch_name("branch'name"));
    assert!(!is_valid_git_branch_name("branch~name"));
    assert!(!is_valid_git_branch_name("branch`name"));
    assert!(!is_valid_git_branch_name("branch!name"));
    assert!(!is_valid_git_branch_name("branch+name"));
    assert!(!is_valid_git_branch_name("branch=name"));
}

#[test]
fn branch_names_with_single_dots_and_dashes() {
    assert!(is_valid_git_branch_name("a.b"));
    assert!(is_valid_git_branch_name("--"));
    assert!(!is_valid_git_branch_name("ü"));
}
