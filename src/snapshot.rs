//! The uncommitted state of a checkout, and how it is read.
use vstd::prelude::*;
use crate::command::{arg, opt_command_view, Command, CommandView};
use crate::workspace::{git_command, spec_git};
use vstd::string::StrSliceExecFns;
use vstd::utf8::{decode_utf8, valid_utf8};

verus! {

broadcast use vstd::string::group_string_axioms;

/// Everything not yet committed in a checkout, as read at one moment.
pub struct DirtyStateSnapshot {
    /// Binary patch of the index against `HEAD`; empty when they agree.
    pub staged_patch: Vec<u8>,
    /// Binary patch of the working tree against the index; empty when they agree.
    pub unstaged_patch: Vec<u8>,
    /// Untracked, non-ignored paths, relative to the top of the checkout.
    pub untracked_paths: Vec<String>,
}

/// Left-to-right reading of a list whose entries are separated by `sep`:
/// the completed entries and the entry still being read.
pub open spec fn scan_list(s: Seq<char>, sep: char) -> (Seq<Seq<char>>, Seq<char>)
    decreases s.len(),
{
    if s.len() == 0 {
        (seq![], seq![])
    } else {
        let (done, cur) = scan_list(s.drop_last(), sep);
        if s.last() == sep {
            (if cur.len() > 0 { done.push(cur) } else { done }, seq![])
        } else {
            (done, cur.push(s.last()))
        }
    }
}

/// The non-empty entries of a list separated by `sep`, in order.
pub open spec fn list_entries(s: Seq<char>, sep: char) -> Seq<Seq<char>> {
    let (done, cur) = scan_list(s, sep);
    if cur.len() > 0 {
        done.push(cur)
    } else {
        done
    }
}

/// The non-empty entries of a NUL-separated list, in order.
pub open spec fn nul_list_entries(s: Seq<char>) -> Seq<Seq<char>> {
    list_entries(s, '\0')
}

/// Splits `list` at every `sep`, leaving out empty entries.
pub fn split_entries(list: &str, sep: char) -> (r: Vec<String>)
    ensures
        r.deep_view() == list_entries(list@, sep),
{
    let n = list.unicode_len();
    let mut r: Vec<String> = Vec::new();
    let mut start: usize = 0;
    let mut i: usize = 0;
    while i < n
        invariant
            n == list@.len(),
            start <= i <= n,
            r.deep_view() == scan_list(list@.subrange(0, i as int), sep).0,
            list@.subrange(start as int, i as int) == scan_list(list@.subrange(0, i as int), sep).1,
        decreases n - i,
    {
        let ghost pre = list@.subrange(0, i as int);
        let ghost next = list@.subrange(0, i + 1);
        assert(next.drop_last() =~= pre);
        let c = list.get_char(i);
        if c == sep {
            if start < i {
                let entry = list.substring_char(start, i).to_owned();
                r.push(entry);
                assert(r.deep_view() =~= scan_list(pre, sep).0.push(scan_list(pre, sep).1));
            }
            start = i + 1;
            assert(list@.subrange(start as int, i + 1) =~= Seq::<char>::empty());
        } else {
            assert(list@.subrange(start as int, i + 1) =~= list@.subrange(start as int, i as int).push(c));
        }
        i += 1;
    }
    assert(list@.subrange(0, n as int) =~= list@);
    if start < n {
        let entry = list.substring_char(start, n).to_owned();
        r.push(entry);
        assert(r.deep_view() =~= list_entries(list@, sep));
    }
    r
}

/// Splits the NUL-separated path list that `git ls-files -z` prints.
pub fn parse_untracked_list(list: &str) -> (r: Vec<String>)
    ensures
        r.deep_view() == nul_list_entries(list@),
{
    split_entries(list, '\0')
}

/// Relies on `String::from_utf8`: the text the bytes encode when they are
/// valid UTF-8, an error otherwise.
#[verifier::external_body]
fn utf8_to_string(bytes: Vec<u8>) -> (r: Option<String>)
    ensures
        r.is_some() == valid_utf8(bytes@),
        r matches Some(s) ==> s@ == decode_utf8(bytes@),
{
    String::from_utf8(bytes).ok()
}

/// Where a capture of the dirty state stands.
#[derive(Clone, Copy, Debug, PartialEq, Eq, Structural)]
pub enum CapturePhase {
    /// Diff the index against `HEAD`, binary-safe.
    DiffStaged,
    /// Ask, without printing, whether the working tree differs from the index.
    ProbeUnstaged,
    /// Diff the working tree against the index, binary-safe.
    DiffUnstaged,
    /// List untracked, non-ignored paths, NUL-separated.
    ListUntracked,
    /// The snapshot is complete.
    Captured,
    /// A read failed; no snapshot is made.
    Failed,
}

/// A capture as plain values: each half of the patch once known, and the
/// untracked paths.
pub struct CaptureView {
    pub staged: Option<Seq<u8>>,
    pub unstaged: Option<Seq<u8>>,
    pub untracked: Seq<Seq<char>>,
    pub phase: CapturePhase,
}

pub open spec fn diff_staged_command() -> CommandView {
    spec_git(seq!["diff"@, "--staged"@, "--binary"@])
}

pub open spec fn probe_unstaged_command() -> CommandView {
    spec_git(seq!["diff"@, "--quiet"@])
}

pub open spec fn diff_unstaged_command() -> CommandView {
    spec_git(seq!["diff"@, "--binary"@])
}

pub open spec fn list_untracked_command() -> CommandView {
    spec_git(seq!["ls-files"@, "--others"@, "--exclude-standard"@, "-z"@])
}

pub open spec fn capture_command(v: CaptureView) -> Option<CommandView> {
    match v.phase {
        CapturePhase::DiffStaged => Some(diff_staged_command()),
        CapturePhase::ProbeUnstaged => Some(probe_unstaged_command()),
        CapturePhase::DiffUnstaged => Some(diff_unstaged_command()),
        CapturePhase::ListUntracked => Some(list_untracked_command()),
        _ => None,
    }
}

/// The first read still needed once the staged half is known.
pub open spec fn after_staged(unstaged: Option<Seq<u8>>) -> CapturePhase {
    if unstaged is Some {
        CapturePhase::ListUntracked
    } else {
        CapturePhase::ProbeUnstaged
    }
}

/// The state after the current read ended, successfully when `ok`, having
/// printed `out`. The quiet probe succeeds exactly when there is nothing
/// unstaged, and then no unstaged diff is taken.
pub open spec fn capture_step(v: CaptureView, ok: bool, out: Seq<u8>) -> CaptureView {
    match v.phase {
        CapturePhase::DiffStaged => if ok {
            CaptureView { staged: Some(out), phase: after_staged(v.unstaged), ..v }
        } else {
            CaptureView { phase: CapturePhase::Failed, ..v }
        },
        CapturePhase::ProbeUnstaged => if ok {
            CaptureView { unstaged: Some(seq![]), phase: CapturePhase::ListUntracked, ..v }
        } else {
            CaptureView { phase: CapturePhase::DiffUnstaged, ..v }
        },
        CapturePhase::DiffUnstaged => if ok {
            CaptureView { unstaged: Some(out), phase: CapturePhase::ListUntracked, ..v }
        } else {
            CaptureView { phase: CapturePhase::Failed, ..v }
        },
        CapturePhase::ListUntracked => if ok && valid_utf8(out) {
            CaptureView {
                untracked: nul_list_entries(decode_utf8(out)),
                phase: CapturePhase::Captured,
                ..v
            }
        } else {
            CaptureView { phase: CapturePhase::Failed, ..v }
        },
        _ => v,
    }
}

/// The state in which a capture begins, given the halves found fresh in the
/// patch cache.
pub open spec fn initial_capture(cached_staged: Option<Seq<u8>>, cached_unstaged: Option<Seq<u8>>) -> CaptureView {
    CaptureView {
        staged: cached_staged,
        unstaged: cached_unstaged,
        untracked: seq![],
        phase: if cached_staged is None {
            CapturePhase::DiffStaged
        } else {
            after_staged(cached_unstaged)
        },
    }
}

pub open spec fn opt_bytes_view(b: Option<Vec<u8>>) -> Option<Seq<u8>> {
    match b {
        Some(v) => Some(v@),
        None => None,
    }
}

/// Reads the dirty state of the current checkout, reusing cached halves.
pub struct CaptureSession {
    pub staged: Option<Vec<u8>>,
    pub unstaged: Option<Vec<u8>>,
    pub untracked: Vec<String>,
    pub phase: CapturePhase,
}

impl View for CaptureSession {
    type V = CaptureView;

    open spec fn view(&self) -> CaptureView {
        CaptureView {
            staged: opt_bytes_view(self.staged),
            unstaged: opt_bytes_view(self.unstaged),
            untracked: self.untracked.deep_view(),
            phase: self.phase,
        }
    }
}

impl CaptureSession {
    /// The session's halves are known exactly where it says so.
    pub open spec fn wf(&self) -> bool {
        &&& (self.phase is ProbeUnstaged || self.phase is DiffUnstaged || self.phase is ListUntracked
            || self.phase is Captured) ==> self.staged is Some
        &&& (self.phase is ListUntracked || self.phase is Captured) ==> self.unstaged is Some
    }

    /// A capture that takes from the cache the halves given here and reads
    /// the others.
    pub fn start(cached_staged: Option<Vec<u8>>, cached_unstaged: Option<Vec<u8>>) -> (r: Self)
        ensures
            r@ == initial_capture(opt_bytes_view(cached_staged), opt_bytes_view(cached_unstaged)),
            r.wf(),
    {
        let phase = if cached_staged.is_none() {
            CapturePhase::DiffStaged
        } else if cached_unstaged.is_some() {
            CapturePhase::ListUntracked
        } else {
            CapturePhase::ProbeUnstaged
        };
        let r = CaptureSession { staged: cached_staged, unstaged: cached_unstaged, untracked: Vec::new(), phase };
        assert(r@.untracked =~= seq![]);
        r
    }

    pub fn phase(&self) -> (r: CapturePhase)
        ensures
            r == self@.phase,
    {
        self.phase
    }

    /// The read the capture asks for now; `None` once it is over.
    pub fn command(&self) -> (r: Option<Command>)
        ensures
            opt_command_view(r) == capture_command(self@),
    {
        match self.phase {
            CapturePhase::DiffStaged => {
                let args = vec![arg("diff"), arg("--staged"), arg("--binary")];
                assert(args.deep_view() =~= seq!["diff"@, "--staged"@, "--binary"@]);
                Some(git_command(args))
            },
            CapturePhase::ProbeUnstaged => {
                let args = vec![arg("diff"), arg("--quiet")];
                assert(args.deep_view() =~= seq!["diff"@, "--quiet"@]);
                Some(git_command(args))
            },
            CapturePhase::DiffUnstaged => {
                let args = vec![arg("diff"), arg("--binary")];
                assert(args.deep_view() =~= seq!["diff"@, "--binary"@]);
                Some(git_command(args))
            },
            CapturePhase::ListUntracked => {
                let args = vec![arg("ls-files"), arg("--others"), arg("--exclude-standard"), arg("-z")];
                assert(args.deep_view() =~= seq!["ls-files"@, "--others"@, "--exclude-standard"@, "-z"@]);
                Some(git_command(args))
            },
            _ => None,
        }
    }

    /// The state after the current read ended, successfully when `success`,
    /// having printed `stdout`.
    pub fn advance(&mut self, success: bool, stdout: Vec<u8>)
        requires
            old(self).wf(),
        ensures
            final(self)@ == capture_step(old(self)@, success, stdout@),
            final(self).wf(),
    {
        match self.phase {
            CapturePhase::DiffStaged => if success {
                self.staged = Some(stdout);
                self.phase = if self.unstaged.is_some() {
                    CapturePhase::ListUntracked
                } else {
                    CapturePhase::ProbeUnstaged
                };
            } else {
                self.phase = CapturePhase::Failed;
            },
            CapturePhase::ProbeUnstaged => if success {
                self.unstaged = Some(Vec::new());
                self.phase = CapturePhase::ListUntracked;
                assert(self@.unstaged =~= Some(seq![]));
            } else {
                self.phase = CapturePhase::DiffUnstaged;
            },
            CapturePhase::DiffUnstaged => if success {
                self.unstaged = Some(stdout);
                self.phase = CapturePhase::ListUntracked;
            } else {
                self.phase = CapturePhase::Failed;
            },
            CapturePhase::ListUntracked => {
                if !success {
                    self.phase = CapturePhase::Failed;
                } else {
                    match utf8_to_string(stdout) {
                        Some(text) => {
                            self.untracked = parse_untracked_list(text.as_str());
                            self.phase = CapturePhase::Captured;
                        },
                        None => {
                            self.phase = CapturePhase::Failed;
                        },
                    }
                }
            },
            _ => {},
        }
    }

    /// The snapshot a completed capture took.
    pub fn into_snapshot(self) -> (r: DirtyStateSnapshot)
        requires
            self.wf(),
            self@.phase is Captured,
        ensures
            r.staged_patch@ == self@.staged.unwrap(),
            r.unstaged_patch@ == self@.unstaged.unwrap(),
            r.untracked_paths.deep_view() == self@.untracked,
    {
        let staged_patch = match self.staged {
            Some(b) => b,
            None => Vec::new(),
        };
        let unstaged_patch = match self.unstaged {
            Some(b) => b,
            None => Vec::new(),
        };
        DirtyStateSnapshot { staged_patch, unstaged_patch, untracked_paths: self.untracked }
    }
}

} // verus!
