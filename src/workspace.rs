//! The disposable secondary checkout: how it is entered, replayed into and
//! torn down, as a session that names one command at a time and is told how
//! each ended.
use vstd::prelude::*;
use crate::command::{arg, join, join_path, opt_command_view, Command, CommandView};
use crate::snapshot::DirtyStateSnapshot;
use crate::text::{decimal, lemma_decimal_injective, push_decimal};
use vstd::string::StringExecFns;

verus! {

broadcast use vstd::string::group_string_axioms;

/// Prefix of the directory name of every secondary checkout.
pub const WORKTREE_DIR_PREFIX: &'static str = "autopr-wt-";

/// An entered secondary checkout, and what teardown and reconciliation need
/// to know about the checkout it was made from.
pub struct TempWorktree {
    pub path: String,
    pub orig_root: String,
    pub orig_branch: String,
    pub had_staged_changes: bool,
}

impl TempWorktree {
    /// Top directory of the checkout the workspace was made from.
    pub fn original_root(&self) -> (r: &String)
        ensures
            r@ == self.orig_root@,
    {
        &self.orig_root
    }
}

/// The directory, inside the metadata directory `git_dir`, of a workspace
/// created at `millis`.
pub open spec fn spec_workspace_path(git_dir: Seq<char>, millis: u64) -> Seq<char> {
    join_path(git_dir, "autopr-wt-"@ + decimal(millis as nat))
}

pub fn workspace_path(git_dir: &str, millis: u64) -> (r: String)
    ensures
        r@ == spec_workspace_path(git_dir@, millis),
{
    let mut name = String::from_str(WORKTREE_DIR_PREFIX);
    push_decimal(&mut name, millis);
    join(git_dir, name.as_str())
}

/// Workspaces created at different milliseconds never share a directory.
pub proof fn lemma_workspace_paths_distinct(git_dir: Seq<char>, a: u64, b: u64)
    requires
        a != b,
    ensures
        spec_workspace_path(git_dir, a) != spec_workspace_path(git_dir, b),
{
    let pa = spec_workspace_path(git_dir, a);
    let pb = spec_workspace_path(git_dir, b);
    let k = (git_dir + "/"@ + "autopr-wt-"@).len();
    assert(pa =~= (git_dir + "/"@ + "autopr-wt-"@) + decimal(a as nat));
    assert(pb =~= (git_dir + "/"@ + "autopr-wt-"@) + decimal(b as nat));
    if pa == pb {
        assert(pa.subrange(k as int, pa.len() as int) =~= decimal(a as nat));
        assert(pb.subrange(k as int, pb.len() as int) =~= decimal(b as nat));
        lemma_decimal_injective(a as nat, b as nat);
    }
}

/// Whether a directory name is that of a secondary checkout.
pub fn is_temp_worktree_dir_name(name: &str) -> (r: bool)
    ensures
        r == (name@.len() >= WORKTREE_DIR_PREFIX@.len() && name@.subrange(
            0,
            WORKTREE_DIR_PREFIX@.len() as int,
        ) == WORKTREE_DIR_PREFIX@),
{
    crate::text::matches_at(name, WORKTREE_DIR_PREFIX, 0)
}

/// Where a workspace session stands.
#[derive(Clone, Copy, Debug, PartialEq, Eq, Structural)]
pub enum Phase {
    /// Register the secondary checkout, detached, at the workspace path.
    Register,
    /// Move the process into the secondary checkout.
    EnterDir,
    /// Put the checkout on the original branch name, by the fallback of `tier`.
    Switch { tier: usize },
    /// Apply the staged patch to the index only.
    ApplyStaged,
    /// Apply the unstaged patch to the working tree.
    ApplyUnstaged,
    /// Copy the untracked file at position `next` of the snapshot.
    CopyUntracked { next: usize },
    /// The workspace holds the captured state and is in use.
    Active,
    /// Teardown: move the process back to the original checkout.
    Restore,
    /// Teardown: ask whether `HEAD` is detached.
    CheckHead,
    /// Teardown: return to the original branch.
    SwitchBack,
    /// Teardown: drop the checkout from the worktree registry.
    Deregister,
    /// Teardown: remove what is left of the directory.
    Sweep,
    /// Torn down after use.
    Closed,
    /// Entering failed; whatever had been created is removed.
    Failed,
}

/// Number of ways tried, in order, to put the checkout on the original branch.
pub const SWITCH_TIERS: usize = 3;

/// A workspace session as plain values.
pub struct SessionView {
    pub path: Seq<char>,
    pub root: Seq<char>,
    pub branch: Seq<char>,
    pub staged: Seq<u8>,
    pub unstaged: Seq<u8>,
    pub untracked: Seq<Seq<char>>,
    pub phase: Phase,
    pub failing: bool,
}

pub open spec fn spec_git(args: Seq<Seq<char>>) -> CommandView {
    CommandView::Git { args, input: None }
}

pub open spec fn register_command(path: Seq<char>) -> CommandView {
    spec_git(seq!["worktree"@, "add"@, "--detach"@, path])
}

/// The fallback chain: switch to the branch; else create it tracking the
/// remote's branch of that name; else create it at the detached commit.
pub open spec fn switch_command(branch: Seq<char>, tier: usize) -> CommandView {
    let base = seq!["switch"@, "--force"@, "--ignore-other-worktrees"@];
    if tier == 0 {
        spec_git(base.push(branch))
    } else if tier == 1 {
        spec_git(base + seq!["-c"@, branch, "--track"@, "origin/"@ + branch])
    } else {
        spec_git(base + seq!["-c"@, branch])
    }
}

pub open spec fn apply_index_command(patch: Seq<u8>) -> CommandView {
    CommandView::Git { args: seq!["apply"@, "--cached"@, "-"@], input: Some(patch) }
}

pub open spec fn apply_tree_command(patch: Seq<u8>) -> CommandView {
    CommandView::Git { args: seq!["apply"@, "-"@], input: Some(patch) }
}

/// Copies an untracked file from the original checkout into the workspace,
/// which is then the working directory.
pub open spec fn copy_command(root: Seq<char>, rel: Seq<char>) -> CommandView {
    CommandView::CopyFile { from: join_path(root, rel), to: rel }
}

pub open spec fn head_check_command() -> CommandView {
    spec_git(seq!["symbolic-ref"@, "--quiet"@, "HEAD"@])
}

pub open spec fn switch_back_command(branch: Seq<char>) -> CommandView {
    spec_git(seq!["switch"@, branch])
}

pub open spec fn deregister_command(path: Seq<char>) -> CommandView {
    spec_git(seq!["worktree"@, "remove"@, "--force"@, path])
}

pub open spec fn sweep_command(path: Seq<char>) -> CommandView {
    CommandView::RemoveDir { path }
}

/// The command a session in state `v` asks for; `None` once it rests.
pub open spec fn session_command(v: SessionView) -> Option<CommandView> {
    match v.phase {
        Phase::Register => Some(register_command(v.path)),
        Phase::EnterDir => Some(CommandView::ChangeDir { path: v.path }),
        Phase::Switch { tier } => Some(switch_command(v.branch, tier)),
        Phase::ApplyStaged => Some(apply_index_command(v.staged)),
        Phase::ApplyUnstaged => Some(apply_tree_command(v.unstaged)),
        Phase::CopyUntracked { next } => Some(copy_command(v.root, v.untracked[next as int])),
        Phase::Restore => Some(CommandView::ChangeDir { path: v.root }),
        Phase::CheckHead => Some(head_check_command()),
        Phase::SwitchBack => Some(switch_back_command(v.branch)),
        Phase::Deregister => Some(deregister_command(v.path)),
        Phase::Sweep => Some(sweep_command(v.path)),
        _ => None,
    }
}

pub open spec fn with_phase(v: SessionView, phase: Phase, failing: bool) -> SessionView {
    SessionView { phase, failing, ..v }
}

pub open spec fn copy_phase(v: SessionView, i: int) -> Phase {
    if i < v.untracked.len() {
        Phase::CopyUntracked { next: i as usize }
    } else {
        Phase::Active
    }
}

pub open spec fn after_index_phase(v: SessionView) -> Phase {
    if v.unstaged.len() > 0 {
        Phase::ApplyUnstaged
    } else {
        copy_phase(v, 0)
    }
}

pub open spec fn replay_phase(v: SessionView) -> Phase {
    if v.staged.len() > 0 {
        Phase::ApplyStaged
    } else {
        after_index_phase(v)
    }
}

/// A failure after registration: tear down, then fail.
pub open spec fn unwind(v: SessionView) -> SessionView {
    with_phase(v, Phase::Restore, true)
}

/// The state after the command of `v` ended, successfully or not. Teardown
/// goes on whatever its commands report, but for the question whether
/// `HEAD` is detached.
pub open spec fn session_step(v: SessionView, ok: bool) -> SessionView {
    match v.phase {
        Phase::Register => if ok {
            with_phase(v, Phase::EnterDir, v.failing)
        } else {
            with_phase(v, Phase::Failed, true)
        },
        Phase::EnterDir => if ok {
            with_phase(v, Phase::Switch { tier: 0 }, v.failing)
        } else {
            unwind(v)
        },
        Phase::Switch { tier } => if ok {
            with_phase(v, replay_phase(v), v.failing)
        } else if tier + 1 < SWITCH_TIERS {
            with_phase(v, Phase::Switch { tier: (tier + 1) as usize }, v.failing)
        } else {
            unwind(v)
        },
        Phase::ApplyStaged => if ok {
            with_phase(v, after_index_phase(v), v.failing)
        } else {
            unwind(v)
        },
        Phase::ApplyUnstaged => if ok {
            with_phase(v, copy_phase(v, 0), v.failing)
        } else {
            unwind(v)
        },
        Phase::CopyUntracked { next } => with_phase(v, copy_phase(v, next + 1), v.failing),
        Phase::Restore => with_phase(v, Phase::CheckHead, v.failing),
        Phase::CheckHead => with_phase(
            v,
            if ok {
                Phase::Deregister
            } else {
                Phase::SwitchBack
            },
            v.failing,
        ),
        Phase::SwitchBack => with_phase(v, Phase::Deregister, v.failing),
        Phase::Deregister => with_phase(v, Phase::Sweep, v.failing),
        Phase::Sweep => with_phase(
            v,
            if v.failing {
                Phase::Failed
            } else {
                Phase::Closed
            },
            v.failing,
        ),
        _ => v,
    }
}

/// The phase of `v` agrees with the rest of it.
pub open spec fn session_wf(v: SessionView) -> bool {
    &&& v.untracked.len() <= usize::MAX
    &&& match v.phase {
        Phase::Switch { tier } => tier < SWITCH_TIERS,
        Phase::ApplyStaged => v.staged.len() > 0,
        Phase::ApplyUnstaged => v.unstaged.len() > 0,
        Phase::CopyUntracked { next } => next < v.untracked.len(),
        _ => true,
    }
}

/// The state in which a session begins.
pub open spec fn initial_session(
    git_dir: Seq<char>,
    root: Seq<char>,
    branch: Seq<char>,
    staged: Seq<u8>,
    unstaged: Seq<u8>,
    untracked: Seq<Seq<char>>,
    millis: u64,
) -> SessionView {
    SessionView {
        path: spec_workspace_path(git_dir, millis),
        root,
        branch,
        staged,
        unstaged,
        untracked,
        phase: Phase::Register,
        failing: false,
    }
}

/// Enters, holds and tears down one secondary checkout.
pub struct WorkspaceSession {
    pub workspace: TempWorktree,
    pub snapshot: DirtyStateSnapshot,
    pub phase: Phase,
    pub failing: bool,
}

impl View for WorkspaceSession {
    type V = SessionView;

    open spec fn view(&self) -> SessionView {
        SessionView {
            path: self.workspace.path@,
            root: self.workspace.orig_root@,
            branch: self.workspace.orig_branch@,
            staged: self.snapshot.staged_patch@,
            unstaged: self.snapshot.unstaged_patch@,
            untracked: self.snapshot.untracked_paths.deep_view(),
            phase: self.phase,
            failing: self.failing,
        }
    }
}

impl WorkspaceSession {
    pub open spec fn wf(&self) -> bool {
        &&& session_wf(self@)
        &&& self.workspace.had_staged_changes == (self@.staged.len() > 0)
    }

    /// A session that will create its workspace inside `git_dir`, named after
    /// `now_millis`, and replay `snapshot` into it.
    pub fn start(
        git_dir: &str,
        orig_root: String,
        orig_branch: String,
        snapshot: DirtyStateSnapshot,
        now_millis: u64,
    ) -> (r: Self)
        ensures
            r@ == initial_session(
                git_dir@,
                orig_root@,
                orig_branch@,
                snapshot.staged_patch@,
                snapshot.unstaged_patch@,
                snapshot.untracked_paths.deep_view(),
                now_millis,
            ),
            r.wf(),
    {
        let had_staged_changes = snapshot.staged_patch.len() > 0;
        assert(snapshot.untracked_paths.deep_view().len() == snapshot.untracked_paths.len());
        let path = workspace_path(git_dir, now_millis);
        WorkspaceSession {
            workspace: TempWorktree { path, orig_root, orig_branch, had_staged_changes },
            snapshot,
            phase: Phase::Register,
            failing: false,
        }
    }

    pub fn phase(&self) -> (r: Phase)
        ensures
            r == self@.phase,
    {
        self.phase
    }

    /// The workspace this session is about.
    pub fn workspace(&self) -> (r: &TempWorktree)
        ensures
            r == &self.workspace,
    {
        &self.workspace
    }

    /// The state after the current command ended, successfully when `ok`.
    pub fn advance(&mut self, ok: bool)
        requires
            old(self).wf(),
        ensures
            final(self)@ == session_step(old(self)@, ok),
            final(self).wf(),
            final(self).workspace == old(self).workspace,
    {
        let ghost v = self@;
        let next = match self.phase {
            Phase::Register => if ok {
                Phase::EnterDir
            } else {
                self.failing = true;
                Phase::Failed
            },
            Phase::EnterDir => if ok {
                Phase::Switch { tier: 0 }
            } else {
                self.failing = true;
                Phase::Restore
            },
            Phase::Switch { tier } => if ok {
                self.replay_phase()
            } else if tier + 1 < SWITCH_TIERS {
                Phase::Switch { tier: tier + 1 }
            } else {
                self.failing = true;
                Phase::Restore
            },
            Phase::ApplyStaged => if ok {
                self.after_index_phase()
            } else {
                self.failing = true;
                Phase::Restore
            },
            Phase::ApplyUnstaged => if ok {
                self.copy_phase(0)
            } else {
                self.failing = true;
                Phase::Restore
            },
            Phase::CopyUntracked { next } => {
                assert(self@.untracked.len() == self.snapshot.untracked_paths.len());
                self.copy_phase(next + 1)
            },
            Phase::Restore => Phase::CheckHead,
            Phase::CheckHead => if ok {
                Phase::Deregister
            } else {
                Phase::SwitchBack
            },
            Phase::SwitchBack => Phase::Deregister,
            Phase::Deregister => Phase::Sweep,
            Phase::Sweep => if self.failing {
                Phase::Failed
            } else {
                Phase::Closed
            },
            p => p,
        };
        self.phase = next;
    }

    fn copy_phase(&self, i: usize) -> (r: Phase)
        requires
            i <= self@.untracked.len(),
        ensures
            r == copy_phase(self@, i as int),
    {
        assert(self@.untracked.len() == self.snapshot.untracked_paths.len());
        if i < self.snapshot.untracked_paths.len() {
            Phase::CopyUntracked { next: i }
        } else {
            Phase::Active
        }
    }

    fn after_index_phase(&self) -> (r: Phase)
        ensures
            r == after_index_phase(self@),
    {
        if self.snapshot.unstaged_patch.len() > 0 {
            Phase::ApplyUnstaged
        } else {
            self.copy_phase(0)
        }
    }

    fn replay_phase(&self) -> (r: Phase)
        ensures
            r == replay_phase(self@),
    {
        if self.snapshot.staged_patch.len() > 0 {
            Phase::ApplyStaged
        } else {
            self.after_index_phase()
        }
    }

    /// Begins teardown of an active workspace; any other session is left as is.
    pub fn close(&mut self)
        requires
            old(self).wf(),
        ensures
            final(self)@ == (if old(self)@.phase == Phase::Active {
                with_phase(old(self)@, Phase::Restore, false)
            } else {
                old(self)@
            }),
            final(self).wf(),
            final(self).workspace == old(self).workspace,
    {
        if self.phase == Phase::Active {
            self.phase = Phase::Restore;
            self.failing = false;
        }
    }

    /// The command the session asks for now; `None` once it rests (active,
    /// closed or failed).
    pub fn command(&self) -> (r: Option<Command>)
        requires
            self.wf(),
        ensures
            opt_command_view(r) == session_command(self@),
    {
        let ws = &self.workspace;
        match self.phase {
            Phase::Register => {
                let args = vec![arg("worktree"), arg("add"), arg("--detach"), ws.path.clone()];
                assert(args.deep_view() =~= seq!["worktree"@, "add"@, "--detach"@, self@.path]);
                Some(git_command(args))
            },
            Phase::EnterDir => Some(Command::ChangeDir { path: ws.path.clone() }),
            Phase::Switch { tier } => Some(build_switch(&ws.orig_branch, tier)),
            Phase::ApplyStaged => {
                let input = self.snapshot.staged_patch.clone();
                assert(input@ =~= self@.staged);
                let args = vec![arg("apply"), arg("--cached"), arg("-")];
                assert(args.deep_view() =~= seq!["apply"@, "--cached"@, "-"@]);
                Some(Command::Git { args, input: Some(input) })
            },
            Phase::ApplyUnstaged => {
                let input = self.snapshot.unstaged_patch.clone();
                assert(input@ =~= self@.unstaged);
                let args = vec![arg("apply"), arg("-")];
                assert(args.deep_view() =~= seq!["apply"@, "-"@]);
                Some(Command::Git { args, input: Some(input) })
            },
            Phase::CopyUntracked { next } => {
                let rel = &self.snapshot.untracked_paths[next];
                assert(rel@ == self@.untracked[next as int]);
                Some(Command::CopyFile { from: join(ws.orig_root.as_str(), rel.as_str()), to: rel.clone() })
            },
            Phase::Restore => Some(Command::ChangeDir { path: ws.orig_root.clone() }),
            Phase::CheckHead => {
                let args = vec![arg("symbolic-ref"), arg("--quiet"), arg("HEAD")];
                assert(args.deep_view() =~= seq!["symbolic-ref"@, "--quiet"@, "HEAD"@]);
                Some(git_command(args))
            },
            Phase::SwitchBack => {
                let args = vec![arg("switch"), ws.orig_branch.clone()];
                assert(args.deep_view() =~= seq!["switch"@, self@.branch]);
                Some(git_command(args))
            },
            Phase::Deregister => {
                let args = vec![arg("worktree"), arg("remove"), arg("--force"), ws.path.clone()];
                assert(args.deep_view() =~= seq!["worktree"@, "remove"@, "--force"@, self@.path]);
                Some(git_command(args))
            },
            Phase::Sweep => Some(Command::RemoveDir { path: ws.path.clone() }),
            _ => None,
        }
    }
}

/// A run of the version-control binary with no input.
pub fn git_command(args: Vec<String>) -> (r: Command)
    ensures
        r@ == spec_git(args.deep_view()),
{
    Command::Git { args, input: None }
}

fn build_switch(branch: &String, tier: usize) -> (r: Command)
    ensures
        r@ == switch_command(branch@, tier),
{
    let mut args = vec![arg("switch"), arg("--force"), arg("--ignore-other-worktrees")];
    let ghost base = args.deep_view();
    assert(base =~= seq!["switch"@, "--force"@, "--ignore-other-worktrees"@]);
    if tier == 0 {
        args.push(branch.clone());
        assert(args.deep_view() =~= base.push(branch@));
    } else if tier == 1 {
        let mut remote = String::from_str("origin/");
        remote.append(branch.as_str());
        args.push(arg("-c"));
        args.push(branch.clone());
        args.push(arg("--track"));
        args.push(remote);
        assert(args.deep_view() =~= base + seq!["-c"@, branch@, "--track"@, "origin/"@ + branch@]);
    } else {
        args.push(arg("-c"));
        args.push(branch.clone());
        assert(args.deep_view() =~= base + seq!["-c"@, branch@]);
    }
    git_command(args)
}

/// The state reached from `v` when its commands end as `oks` says, one
/// outcome per command, stopping where the session rests.
pub open spec fn session_run(v: SessionView, oks: Seq<bool>) -> SessionView
    decreases oks.len(),
{
    if oks.len() == 0 || session_command(v).is_none() {
        v
    } else {
        session_run(session_step(v, oks[0]), oks.drop_first())
    }
}

/// The commands asked for along that run, in order.
pub open spec fn session_trace(v: SessionView, oks: Seq<bool>) -> Seq<CommandView>
    decreases oks.len(),
{
    if oks.len() == 0 || session_command(v).is_none() {
        seq![]
    } else {
        seq![session_command(v).unwrap()] + session_trace(session_step(v, oks[0]), oks.drop_first())
    }
}

pub open spec fn is_setup_phase(p: Phase) -> bool {
    p is Register || p is EnterDir || p is Switch
}

pub open spec fn is_replay_phase(p: Phase) -> bool {
    p is ApplyStaged || p is ApplyUnstaged || p is CopyUntracked
}

pub open spec fn is_teardown_phase(p: Phase) -> bool {
    p is Restore || p is CheckHead || p is SwitchBack || p is Deregister || p is Sweep
}

/// The session is over: torn down after use, or failed to enter.
pub open spec fn is_over(p: Phase) -> bool {
    p is Closed || p is Failed
}

/// Copies of the untracked files from position `i` on.
pub open spec fn copy_commands(v: SessionView, i: int) -> Seq<CommandView> {
    Seq::new((v.untracked.len() - i) as nat, |k: int| copy_command(v.root, v.untracked[i + k]))
}

/// What replaying the snapshot of `v` into the workspace consists of.
pub open spec fn replay_commands(v: SessionView) -> Seq<CommandView> {
    (if v.staged.len() > 0 {
        seq![apply_index_command(v.staged)]
    } else {
        seq![]
    }) + (if v.unstaged.len() > 0 {
        seq![apply_tree_command(v.unstaged)]
    } else {
        seq![]
    }) + copy_commands(v, 0)
}

/// What is left of the replay from state `v` on.
pub open spec fn replay_left(v: SessionView) -> Seq<CommandView> {
    match v.phase {
        Phase::ApplyUnstaged => seq![apply_tree_command(v.unstaged)] + copy_commands(v, 0),
        Phase::CopyUntracked { next } => copy_commands(v, next as int),
        Phase::Active => seq![],
        _ => replay_commands(v),
    }
}

pub open spec fn ends_with(t: Seq<CommandView>, tail: Seq<CommandView>) -> bool {
    t.len() >= tail.len() && t.subrange(t.len() - tail.len(), t.len() as int) == tail
}

/// The last two commands deregister the workspace and remove its directory.
pub open spec fn ends_with_teardown(t: Seq<CommandView>, path: Seq<char>) -> bool {
    ends_with(t, seq![deregister_command(path), sweep_command(path)])
}

pub open spec fn registers_nowhere(t: Seq<CommandView>, path: Seq<char>) -> bool {
    forall|k: int| 0 <= k < t.len() ==> #[trigger] t[k] != register_command(path)
}

proof fn lemma_not_register(v: SessionView)
    requires
        session_wf(v),
        !(v.phase is Register),
        session_command(v).is_some(),
    ensures
        session_command(v).unwrap() != register_command(v.path),
{
    reveal_strlit("add");
    reveal_strlit("remove");
    reveal_strlit("switch");
    reveal_strlit("worktree");
    let c = session_command(v).unwrap();
    let ra = seq!["worktree"@, "add"@, "--detach"@, v.path];
    assert(register_command(v.path) == spec_git(ra));
    assert(ra[0].len() == 8 && ra[1].len() == 3);
    match v.phase {
        Phase::Switch { tier } => {
            let base = seq!["switch"@, "--force"@, "--ignore-other-worktrees"@];
            if tier == 0 {
                assert(base.push(v.branch)[0].len() == 6);
            } else if tier == 1 {
                assert((base + seq!["-c"@, v.branch, "--track"@, "origin/"@ + v.branch]).len() == 7);
            } else {
                assert((base + seq!["-c"@, v.branch]).len() == 5);
            }
            if let CommandView::Git { args, input } = c {
                assert(args != ra);
            }
        },
        Phase::Deregister => {
            assert(seq!["worktree"@, "remove"@, "--force"@, v.path][1] != ra[1]);
        },
        Phase::CheckHead => {
            assert(seq!["symbolic-ref"@, "--quiet"@, "HEAD"@].len() != ra.len());
        },
        Phase::SwitchBack => {
            assert(seq!["switch"@, v.branch].len() != ra.len());
        },
        _ => {},
    }
    assert(c != register_command(v.path));
}

proof fn lemma_teardown_runs(v: SessionView, oks: Seq<bool>)
    requires
        session_wf(v),
        is_teardown_phase(v.phase) || is_over(v.phase),
    ensures
        !(session_run(v, oks).phase is Active),
        is_teardown_phase(v.phase) && !(v.phase is Sweep) && is_over(session_run(v, oks).phase)
            ==> ends_with_teardown(session_trace(v, oks), v.path),
        v.phase is Sweep && is_over(session_run(v, oks).phase) ==> session_trace(v, oks) == seq![
            sweep_command(v.path),
        ],
        registers_nowhere(session_trace(v, oks), v.path),
    decreases oks.len(),
{
    if oks.len() == 0 || session_command(v).is_none() {
    } else {
        let n = session_step(v, oks[0]);
        let rest_oks = oks.drop_first();
        lemma_teardown_runs(n, rest_oks);
        lemma_not_register(v);
        let t = session_trace(v, oks);
        let rest = session_trace(n, rest_oks);
        let c = session_command(v).unwrap();
        assert(t == seq![c] + rest);
        assert(session_run(v, oks) == session_run(n, rest_oks));
        assert(n.path == v.path);
        if is_over(session_run(v, oks).phase) {
            if v.phase is Deregister {
                assert(n.phase is Sweep);
                assert(rest == seq![sweep_command(v.path)]);
                assert(t =~= seq![deregister_command(v.path), sweep_command(v.path)]);
                assert(t.subrange(0, 2) =~= t);
            } else if v.phase is Sweep {
                assert(is_over(n.phase));
                assert(rest =~= Seq::<CommandView>::empty());
                assert(t =~= seq![sweep_command(v.path)]);
            } else if is_teardown_phase(v.phase) {
                assert(is_teardown_phase(n.phase) && !(n.phase is Sweep));
                assert(ends_with_teardown(rest, v.path));
                assert(t.subrange(t.len() - 2, t.len() as int) =~= rest.subrange(
                    rest.len() - 2,
                    rest.len() as int,
                ));
            }
        }
        assert forall|k: int| 0 <= k < t.len() implies #[trigger] t[k] != register_command(v.path) by {
            if k > 0 {
                assert(t[k] == rest[k - 1]);
            }
        }
    }
}

proof fn lemma_replay_runs(v: SessionView, oks: Seq<bool>)
    requires
        session_wf(v),
        is_setup_phase(v.phase) || is_replay_phase(v.phase) || v.phase is Active,
        session_run(v, oks).phase is Active,
    ensures
        is_setup_phase(v.phase) ==> ends_with(session_trace(v, oks), replay_left(v)),
        !is_setup_phase(v.phase) ==> session_trace(v, oks) == replay_left(v),
        !(v.phase is Register) ==> registers_nowhere(session_trace(v, oks), v.path),
        v.phase is Register ==> registers_nowhere(session_trace(v, oks).drop_first(), v.path),
    decreases oks.len(),
{
    if oks.len() == 0 || session_command(v).is_none() {
        assert(v.phase is Active);
    } else {
        let n = session_step(v, oks[0]);
        let rest_oks = oks.drop_first();
        let t = session_trace(v, oks);
        let rest = session_trace(n, rest_oks);
        let c = session_command(v).unwrap();
        assert(t == seq![c] + rest);
        assert(session_run(v, oks) == session_run(n, rest_oks));
        if !(v.phase is Register) {
            lemma_not_register(v);
        }
        assert(t.drop_first() =~= rest);
        if is_teardown_phase(n.phase) || is_over(n.phase) {
            lemma_teardown_runs(n, rest_oks);
        } else {
            lemma_replay_runs(n, rest_oks);
            assert forall|k: int| 0 <= k < t.len() && !(v.phase is Register) implies #[trigger] t[k]
                != register_command(v.path) by {
                if k > 0 {
                    assert(t[k] == rest[k - 1]);
                }
            }
            let r = replay_left(n);
            if is_setup_phase(v.phase) {
                if is_setup_phase(n.phase) {
                    assert(r == replay_left(v));
                } else if n.phase is Active {
                    assert(replay_left(v) =~= r);
                } else {
                    assert(v.phase is Switch);
                    assert(rest == r);
                    assert(replay_left(v) =~= r);
                }
                if !is_setup_phase(n.phase) {
                    assert(rest.subrange(0, rest.len() as int) =~= rest);
                }
                assert(ends_with(rest, replay_left(v)));
                let lv = replay_left(v);
                assert(t.subrange(t.len() - lv.len(), t.len() as int) =~= rest.subrange(
                    rest.len() - lv.len(),
                    rest.len() as int,
                ));
            } else {
                match v.phase {
                    Phase::ApplyStaged => {
                        assert(t =~= replay_left(v));
                    },
                    Phase::ApplyUnstaged => {
                        assert(t =~= replay_left(v));
                    },
                    Phase::CopyUntracked { next } => {
                        let all = copy_commands(v, next as int);
                        assert(rest =~= copy_commands(v, next + 1));
                        assert(all[0] == c);
                        assert forall|k: int| 0 <= k < rest.len() implies #[trigger] rest[k] == all[k + 1] by {
                            assert(copy_commands(v, next + 1)[k] == copy_command(v.root, v.untracked[next + 1 + k]));
                        }
                        assert(t =~= all);
                    },
                    _ => {},
                }
            }
        }
    }
}

/// Replay fidelity: once a session has entered its workspace, the last
/// commands it asked for put the captured state there and nothing else: the
/// staged patch applied to the index only (when not empty), then the unstaged
/// patch applied to the working tree (when not empty), then one copy of each
/// untracked file from the original checkout, in the captured order.
pub proof fn lemma_entered_workspace_replays_snapshot(
    git_dir: Seq<char>,
    root: Seq<char>,
    branch: Seq<char>,
    staged: Seq<u8>,
    unstaged: Seq<u8>,
    untracked: Seq<Seq<char>>,
    millis: u64,
    oks: Seq<bool>,
)
    requires
        untracked.len() <= usize::MAX,
        session_run(initial_session(git_dir, root, branch, staged, unstaged, untracked, millis), oks).phase
            is Active,
    ensures
        ({
            let v = initial_session(git_dir, root, branch, staged, unstaged, untracked, millis);
            let t = session_trace(v, oks);
            &&& t[0] == register_command(v.path)
            &&& ends_with(t, replay_commands(v))
        }),
{
    let v = initial_session(git_dir, root, branch, staged, unstaged, untracked, millis);
    lemma_replay_runs(v, oks);
}

/// Cleanup totality: a session that fails to enter leaves nothing behind.
/// Either registering the workspace was the one command and it failed, or
/// the workspace was registered once and the last two commands deregister it
/// and remove its directory, with no second registration in between.
pub proof fn lemma_failed_enter_leaves_nothing(
    git_dir: Seq<char>,
    root: Seq<char>,
    branch: Seq<char>,
    staged: Seq<u8>,
    unstaged: Seq<u8>,
    untracked: Seq<Seq<char>>,
    millis: u64,
    oks: Seq<bool>,
)
    requires
        untracked.len() <= usize::MAX,
        session_run(initial_session(git_dir, root, branch, staged, unstaged, untracked, millis), oks).phase
            is Failed,
    ensures
        ({
            let v = initial_session(git_dir, root, branch, staged, unstaged, untracked, millis);
            let t = session_trace(v, oks);
            &&& t[0] == register_command(v.path)
            &&& !oks[0] ==> t == seq![register_command(v.path)]
            &&& oks[0] ==> ends_with_teardown(t, v.path) && registers_nowhere(t.drop_first(), v.path)
        }),
{
    let v = initial_session(git_dir, root, branch, staged, unstaged, untracked, millis);
    let t = session_trace(v, oks);
    let n = session_step(v, oks[0]);
    let rest = session_trace(n, oks.drop_first());
    assert(t == seq![register_command(v.path)] + rest);
    assert(t.drop_first() =~= rest);
    if !oks[0] {
        assert(rest =~= Seq::<CommandView>::empty());
        assert(t =~= seq![register_command(v.path)]);
    } else {
        lemma_enter_fails_through_teardown(n, oks.drop_first());
        assert(t.subrange(t.len() - 2, t.len() as int) =~= rest.subrange(rest.len() - 2, rest.len() as int));
    }
}

proof fn lemma_enter_fails_through_teardown(v: SessionView, oks: Seq<bool>)
    requires
        session_wf(v),
        !(v.phase is Register) && !(v.phase is Sweep) && !is_over(v.phase),
        is_over(session_run(v, oks).phase),
    ensures
        ends_with_teardown(session_trace(v, oks), v.path),
        registers_nowhere(session_trace(v, oks), v.path),
    decreases oks.len(),
{
    if is_teardown_phase(v.phase) {
        lemma_teardown_runs(v, oks);
    } else if oks.len() == 0 || session_command(v).is_none() {
    } else {
        let n = session_step(v, oks[0]);
        let rest_oks = oks.drop_first();
        let t = session_trace(v, oks);
        let rest = session_trace(n, rest_oks);
        assert(t == seq![session_command(v).unwrap()] + rest);
        assert(session_run(v, oks) == session_run(n, rest_oks));
        lemma_not_register(v);
        if n.phase is Active {
            assert(session_run(n, rest_oks) == n);
        }
        lemma_enter_fails_through_teardown(n, rest_oks);
        assert(t.subrange(t.len() - 2, t.len() as int) =~= rest.subrange(rest.len() - 2, rest.len() as int));
        assert forall|k: int| 0 <= k < t.len() implies #[trigger] t[k] != register_command(v.path) by {
            if k > 0 {
                assert(t[k] == rest[k - 1]);
            }
        }
    }
}

/// Re-entry: workspaces entered one after another at increasing
/// milliseconds never share a directory.
pub proof fn lemma_reentry_paths_distinct(git_dir: Seq<char>, stamps: Seq<u64>)
    requires
        forall|i: int, j: int| 0 <= i < j < stamps.len() ==> stamps[i] < stamps[j],
    ensures
        forall|i: int, j: int|
            0 <= i < stamps.len() && 0 <= j < stamps.len() && i != j ==> spec_workspace_path(git_dir, #[trigger] stamps[i])
                != spec_workspace_path(git_dir, #[trigger] stamps[j]),
{
    assert forall|i: int, j: int|
        0 <= i < stamps.len() && 0 <= j < stamps.len() && i != j implies spec_workspace_path(git_dir, #[trigger] stamps[i])
            != spec_workspace_path(git_dir, #[trigger] stamps[j]) by {
        lemma_workspace_paths_distinct(git_dir, stamps[i], stamps[j]);
    }
}

/// A whole life of a workspace, entered and then closed: it is registered
/// once, by the first command, and the last two commands deregister it and
/// remove its directory; so once it is closed, nothing of it stays
/// registered.
pub proof fn lemma_workspace_lifecycle(
    git_dir: Seq<char>,
    root: Seq<char>,
    branch: Seq<char>,
    staged: Seq<u8>,
    unstaged: Seq<u8>,
    untracked: Seq<Seq<char>>,
    millis: u64,
    enter_oks: Seq<bool>,
    close_oks: Seq<bool>,
)
    requires
        untracked.len() <= usize::MAX,
        session_run(initial_session(git_dir, root, branch, staged, unstaged, untracked, millis), enter_oks).phase
            is Active,
        session_run(
            with_phase(
                session_run(initial_session(git_dir, root, branch, staged, unstaged, untracked, millis), enter_oks),
                Phase::Restore,
                false,
            ),
            close_oks,
        ).phase is Closed,
    ensures
        ({
            let v = initial_session(git_dir, root, branch, staged, unstaged, untracked, millis);
            let a = session_run(v, enter_oks);
            let t = session_trace(v, enter_oks) + session_trace(with_phase(a, Phase::Restore, false), close_oks);
            &&& t[0] == register_command(v.path)
            &&& registers_nowhere(t.drop_first(), v.path)
            &&& ends_with_teardown(t, v.path)
        }),
{
    let v = initial_session(git_dir, root, branch, staged, unstaged, untracked, millis);
    let a = session_run(v, enter_oks);
    let c = with_phase(a, Phase::Restore, false);
    let t1 = session_trace(v, enter_oks);
    let t2 = session_trace(c, close_oks);
    let t = t1 + t2;
    lemma_replay_runs(v, enter_oks);
    lemma_run_keeps_workspace(v, enter_oks);
    lemma_teardown_runs(c, close_oks);
    assert(t1.len() > 0);
    assert(t.drop_first() =~= t1.drop_first() + t2);
    assert(t.subrange(t.len() - 2, t.len() as int) =~= t2.subrange(t2.len() - 2, t2.len() as int));
    assert forall|k: int| 0 <= k < t.drop_first().len() implies #[trigger] t.drop_first()[k] != register_command(
        v.path,
    ) by {
        if k < t1.len() - 1 {
            assert(t.drop_first()[k] == t1.drop_first()[k]);
        } else {
            assert(t.drop_first()[k] == t2[k - (t1.len() - 1)]);
        }
    }
}

proof fn lemma_run_keeps_workspace(v: SessionView, oks: Seq<bool>)
    ensures
        session_run(v, oks).path == v.path,
        session_wf(v) ==> session_wf(session_run(v, oks)),
    decreases oks.len(),
{
    if oks.len() == 0 || session_command(v).is_none() {
    } else {
        lemma_run_keeps_workspace(session_step(v, oks[0]), oks.drop_first());
    }
}

} // verus!
