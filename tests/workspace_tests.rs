use gh_autopr::command::Command;
use gh_autopr::snapshot::DirtyStateSnapshot;
use gh_autopr::workspace::{is_temp_worktree_dir_name, workspace_path, Phase, WorkspaceSession};

fn describe(c: &Command) -> String {
    match c {
        Command::Git { args, input } => match input {
            Some(bytes) => format!("git {} <{}>", args.join(" "), String::from_utf8_lossy(bytes)),
            None => format!("git {}", args.join(" ")),
        },
        Command::ChangeDir { path } => format!("cd {}", path),
        Command::CopyFile { from, to } => format!("cp {} {}", from, to),
        Command::RemoveDir { path } => format!("rm -r {}", path),
    }
}

/// Feeds the outcomes in order (success for every command past their end)
/// until the session rests; returns the commands it asked for.
fn drive(session: &mut WorkspaceSession, outcomes: &[bool]) -> Vec<String> {
    let mut log = Vec::new();
    let mut i = 0;
    while let Some(c) = session.command() {
        log.push(describe(&c));
        let ok = outcomes.get(i).copied().unwrap_or(true);
        session.advance(ok);
        i += 1;
        assert!(i < 100, "session did not come to rest");
    }
    log
}

fn snapshot(staged: &str, unstaged: &str, untracked: &[&str]) -> DirtyStateSnapshot {
    DirtyStateSnapshot {
        staged_patch: staged.as_bytes().to_vec(),
        unstaged_patch: unstaged.as_bytes().to_vec(),
        untracked_paths: untracked.iter().map(|s| s.to_string()).collect(),
    }
}

fn start(snap: DirtyStateSnapshot, millis: u64) -> WorkspaceSession {
    WorkspaceSession::start("/repo/.git", "/repo".to_string(), "main".to_string(), snap, millis)
}

#[test]
fn test_is_in_temp_worktree() {
    assert!(is_temp_worktree_dir_name("autopr-wt-1234567890"), "Should identify temp worktree directory");
    assert!(!is_temp_worktree_dir_name("my-project"), "Should not identify regular directory as temp worktree");
    assert!(
        !is_temp_worktree_dir_name("temp-123"),
        "Should not identify other temp directories as autopr temp worktree"
    );
}

#[test]
fn workspace_path_is_named_after_the_millisecond() {
    assert_eq!(workspace_path("/repo/.git", 1752184677123), "/repo/.git/autopr-wt-1752184677123");
    assert_eq!(workspace_path(".git", 0), ".git/autopr-wt-0");
    assert_ne!(workspace_path(".git", 10), workspace_path(".git", 1));
}

#[test]
fn staged_edit_and_untracked_file_are_replayed() {
    let mut s = start(snapshot("readme v2", "", &["scratch.txt"]), 42);
    let log = drive(&mut s, &[]);
    assert_eq!(
        log,
        vec![
            "git worktree add --detach /repo/.git/autopr-wt-42",
            "cd /repo/.git/autopr-wt-42",
            "git switch --force --ignore-other-worktrees main",
            "git apply --cached - <readme v2>",
            "cp /repo/scratch.txt scratch.txt",
        ]
    );
    assert_eq!(s.phase(), Phase::Active);
    assert!(s.workspace().had_staged_changes);
    assert_eq!(s.workspace().original_root(), "/repo");
}

#[test]
fn both_patches_go_index_first_then_tree() {
    let mut s = start(snapshot("S", "U", &["a/b.txt", "c"]), 7);
    let log = drive(&mut s, &[]);
    assert_eq!(log[3], "git apply --cached - <S>");
    assert_eq!(log[4], "git apply - <U>");
    assert_eq!(log[5], "cp /repo/a/b.txt a/b.txt");
    assert_eq!(log[6], "cp /repo/c c");
    assert_eq!(log.len(), 7);
    assert_eq!(s.phase(), Phase::Active);
}

#[test]
fn clean_checkout_enters_without_replay() {
    let mut s = start(snapshot("", "", &[]), 7);
    let log = drive(&mut s, &[]);
    assert_eq!(log.len(), 3);
    assert_eq!(s.phase(), Phase::Active);
    assert!(!s.workspace().had_staged_changes);
}

#[test]
fn branch_fallback_tries_remote_then_new_branch() {
    let mut s = start(snapshot("", "", &[]), 9);
    let log = drive(&mut s, &[true, true, false, false, true]);
    assert_eq!(log[2], "git switch --force --ignore-other-worktrees main");
    assert_eq!(log[3], "git switch --force --ignore-other-worktrees -c main --track origin/main");
    assert_eq!(log[4], "git switch --force --ignore-other-worktrees -c main");
    assert_eq!(s.phase(), Phase::Active);
}

#[test]
fn exhausted_fallback_tears_down() {
    let mut s = start(snapshot("S", "", &[]), 9);
    let log = drive(&mut s, &[true, true, false, false, false, true, true]);
    assert_eq!(s.phase(), Phase::Failed);
    assert_eq!(
        &log[5..],
        &[
            "cd /repo",
            "git symbolic-ref --quiet HEAD",
            "git worktree remove --force /repo/.git/autopr-wt-9",
            "rm -r /repo/.git/autopr-wt-9",
        ]
    );
    assert_eq!(log.iter().filter(|c| c.starts_with("git worktree add")).count(), 1);
}

#[test]
fn failed_replay_tears_down_and_returns_to_branch_when_detached() {
    let mut s = start(snapshot("S", "U", &["x"]), 5);
    // registered, entered, switched, staged applied, unstaged fails,
    // back home, HEAD detached, switch back
    let log = drive(&mut s, &[true, true, true, true, false, true, false, true]);
    assert_eq!(s.phase(), Phase::Failed);
    let n = log.len();
    assert_eq!(log[n - 3], "git switch main");
    assert_eq!(log[n - 2], "git worktree remove --force /repo/.git/autopr-wt-5");
    assert_eq!(log[n - 1], "rm -r /repo/.git/autopr-wt-5");
    assert!(!log.iter().any(|c| c.starts_with("cp ")));
}

#[test]
fn failed_registration_leaves_nothing_to_undo() {
    let mut s = start(snapshot("S", "", &[]), 3);
    let log = drive(&mut s, &[false]);
    assert_eq!(log, vec!["git worktree add --detach /repo/.git/autopr-wt-3"]);
    assert_eq!(s.phase(), Phase::Failed);
}

#[test]
fn repeated_enter_and_close_uses_fresh_directories() {
    let mut seen = Vec::new();
    for millis in [1000u64, 1001, 1002] {
        let mut s = start(snapshot("", "U", &[]), millis);
        drive(&mut s, &[]);
        assert_eq!(s.phase(), Phase::Active);
        let path = s.workspace().path.clone();
        assert!(!seen.contains(&path));
        seen.push(path.clone());
        s.close();
        let log = drive(&mut s, &[]);
        assert_eq!(s.phase(), Phase::Closed);
        assert_eq!(log[log.len() - 2], format!("git worktree remove --force {}", path));
        assert_eq!(log[log.len() - 1], format!("rm -r {}", path));
    }
}

#[test]
fn close_outside_active_changes_nothing() {
    let mut s = start(snapshot("", "", &[]), 1);
    s.close();
    assert_eq!(s.phase(), Phase::Register);
}
