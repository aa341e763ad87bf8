use gh_autopr::command::Command;
use gh_autopr::snapshot::{parse_untracked_list, CapturePhase, CaptureSession};

fn args(c: &Command) -> String {
    match c {
        Command::Git { args, .. } => args.join(" "),
        _ => String::from("?"),
    }
}

#[test]
fn untracked_list_splits_on_nul() {
    assert_eq!(parse_untracked_list("a.txt\0dir/b c.txt\0"), vec!["a.txt", "dir/b c.txt"]);
    assert_eq!(parse_untracked_list("\0\0x\0\0y"), vec!["x", "y"]);
    assert_eq!(parse_untracked_list(""), Vec::<String>::new());
}

#[test]
fn capture_reads_everything_when_cache_is_empty() {
    let mut c = CaptureSession::start(None, None);
    assert_eq!(args(&c.command().unwrap()), "diff --staged --binary");
    c.advance(true, b"S".to_vec());
    assert_eq!(args(&c.command().unwrap()), "diff --quiet");
    c.advance(false, Vec::new());
    assert_eq!(args(&c.command().unwrap()), "diff --binary");
    c.advance(true, b"U".to_vec());
    assert_eq!(args(&c.command().unwrap()), "ls-files --others --exclude-standard -z");
    c.advance(true, b"new.txt\0".to_vec());
    assert_eq!(c.phase(), CapturePhase::Captured);
    let snap = c.into_snapshot();
    assert_eq!(snap.staged_patch, b"S".to_vec());
    assert_eq!(snap.unstaged_patch, b"U".to_vec());
    assert_eq!(snap.untracked_paths, vec!["new.txt"]);
}

#[test]
fn quiet_probe_skips_unstaged_diff() {
    let mut c = CaptureSession::start(Some(b"cached".to_vec()), None);
    assert_eq!(args(&c.command().unwrap()), "diff --quiet");
    c.advance(true, Vec::new());
    assert_eq!(args(&c.command().unwrap()), "ls-files --others --exclude-standard -z");
    c.advance(true, Vec::new());
    let snap = c.into_snapshot();
    assert_eq!(snap.staged_patch, b"cached".to_vec());
    assert!(snap.unstaged_patch.is_empty());
    assert!(snap.untracked_paths.is_empty());
}

#[test]
fn cached_unstaged_half_is_kept_and_staged_half_read() {
    let mut c = CaptureSession::start(None, Some(b"cachedU".to_vec()));
    c.advance(true, Vec::new());
    assert_eq!(args(&c.command().unwrap()), "ls-files --others --exclude-standard -z");
    c.advance(true, Vec::new());
    let snap = c.into_snapshot();
    assert!(snap.staged_patch.is_empty());
    assert_eq!(snap.unstaged_patch, b"cachedU".to_vec());
}

#[test]
fn failed_read_or_bad_text_fails_capture() {
    let mut c = CaptureSession::start(None, None);
    c.advance(false, Vec::new());
    assert_eq!(c.phase(), CapturePhase::Failed);
    assert!(c.command().is_none());

    let mut c = CaptureSession::start(Some(Vec::new()), Some(Vec::new()));
    c.advance(true, vec![0xff, 0xfe]);
    assert_eq!(c.phase(), CapturePhase::Failed);
}
