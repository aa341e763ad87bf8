use gh_autopr::command::{Command, Outcome};
use gh_autopr::reconcile::{ReconcilePhase, Reconciliation};
use gh_autopr::snapshot::DirtyStateSnapshot;
use gh_autopr::workspace::{Phase, WorkspaceSession};

fn describe(c: &Command) -> String {
    match c {
        Command::Git { args, input } => match input {
            Some(bytes) => format!("git {} <{}>", args.join(" "), String::from_utf8_lossy(bytes)),
            None => format!("git {}", args.join(" ")),
        },
        Command::ChangeDir { path } => format!("cd {}", path),
        Command::CopyFile { from, to } => format!("cp {} {}", from, to),
        Command::RemoveDir { path } => format!("rm -r {}", path),
    }
}

fn drive(r: &mut Reconciliation, outcomes: &[(bool, &str)]) -> Vec<String> {
    let mut log = Vec::new();
    let mut i = 0;
    while let Some(c) = r.command() {
        log.push(describe(&c));
        let (success, out) = outcomes.get(i).copied().unwrap_or((true, ""));
        r.advance(Outcome { success, stdout: out.as_bytes().to_vec() });
        i += 1;
        assert!(i < 50);
    }
    log
}

#[test]
fn staged_only_workflow_keeps_unstaged_edit() {
    let mut r = Reconciliation::start("pr/x".to_string(), true);
    let log = drive(&mut r, &[(true, "diff of B")]);
    assert_eq!(
        log,
        vec![
            "git diff --binary",
            "git reset --hard HEAD",
            "git rev-parse --verify pr/x",
            "git checkout pr/x",
            "git apply --3way - <diff of B>",
        ]
    );
    assert_eq!(r.phase(), ReconcilePhase::Done);
}

#[test]
fn everything_committed_leaves_clean_tree() {
    let mut r = Reconciliation::start("pr/y".to_string(), false);
    let log = drive(&mut r, &[]);
    assert_eq!(
        log,
        vec!["git reset --hard HEAD", "git clean -fd", "git rev-parse --verify pr/y", "git checkout pr/y"]
    );
    assert_eq!(r.phase(), ReconcilePhase::Done);
}

#[test]
fn staged_edit_with_nothing_unstaged_ends_clean_on_branch() {
    let mut r = Reconciliation::start("feat/y".to_string(), true);
    let log = drive(&mut r, &[(true, "")]);
    assert_eq!(
        log,
        vec!["git diff --binary", "git reset --hard HEAD", "git rev-parse --verify feat/y", "git checkout feat/y"]
    );
    assert_eq!(r.phase(), ReconcilePhase::Done);
    assert!(r.saved_patch().is_empty());
}

#[test]
fn missing_local_branch_is_fetched() {
    let mut r = Reconciliation::start("pr/z".to_string(), false);
    let log = drive(&mut r, &[(true, ""), (true, ""), (false, "")]);
    assert_eq!(log[3], "git fetch origin pr/z:pr/z");
    assert_eq!(log[4], "git checkout pr/z");
    assert_eq!(r.phase(), ReconcilePhase::Done);
}

#[test]
fn failed_fetch_falls_back_to_tracking_branch() {
    let mut r = Reconciliation::start("pr/z".to_string(), false);
    let log = drive(&mut r, &[(true, ""), (true, ""), (false, ""), (false, "")]);
    assert_eq!(log[4], "git checkout -b pr/z --track origin/pr/z");
    assert_eq!(r.phase(), ReconcilePhase::Done);
}

#[test]
fn merge_conflict_is_reported_with_patch_kept() {
    let mut r = Reconciliation::start("pr/x".to_string(), true);
    drive(&mut r, &[(true, "B"), (true, ""), (true, ""), (true, ""), (false, "")]);
    assert_eq!(r.phase(), ReconcilePhase::Conflict);
    assert_eq!(r.saved_patch(), &b"B".to_vec());
}

#[test]
fn unreachable_branch_fails() {
    let mut r = Reconciliation::start("pr/x".to_string(), false);
    drive(&mut r, &[(true, ""), (true, ""), (false, ""), (false, ""), (false, "")]);
    assert_eq!(r.phase(), ReconcilePhase::Failed);
}

#[test]
fn staged_readme_edit_round_trip_scenario() {
    // Staged edit of readme.txt to "v2", untracked scratch.txt, nothing unstaged.
    let snapshot = DirtyStateSnapshot {
        staged_patch: b"--- a/readme.txt\n+++ b/readme.txt\n@@ -1 +1 @@\n-v1\n+v2\n".to_vec(),
        unstaged_patch: Vec::new(),
        untracked_paths: vec!["scratch.txt".to_string()],
    };
    let mut s = WorkspaceSession::start("/r/.git", "/r".to_string(), "main".to_string(), snapshot, 5);
    let mut log = Vec::new();
    while let Some(c) = s.command() {
        log.push(describe(&c));
        s.advance(true);
    }
    assert_eq!(s.phase(), Phase::Active);
    assert!(log.contains(&"git apply --cached - <--- a/readme.txt\n+++ b/readme.txt\n@@ -1 +1 @@\n-v1\n+v2\n>".to_string()));
    assert!(log.contains(&"cp /r/scratch.txt scratch.txt".to_string()));
    assert!(!log.iter().any(|c| c.starts_with("git apply - ")));
    let had_staged = s.workspace().had_staged_changes;
    assert!(had_staged);
    s.close();
    while let Some(_) = s.command() {
        s.advance(true);
    }
    assert_eq!(s.phase(), Phase::Closed);

    let mut r = Reconciliation::start("feat/y".to_string(), had_staged);
    let log = drive(&mut r, &[(true, "")]);
    assert_eq!(r.phase(), ReconcilePhase::Done);
    assert_eq!(log.last().unwrap(), "git checkout feat/y");
    assert!(!log.iter().any(|c| c.starts_with("git apply")));
}
