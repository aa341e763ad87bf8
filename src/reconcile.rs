//! Bringing the original checkout onto the branch the workflow pushed,
//! keeping or discarding what was left in its working tree.
use vstd::prelude::*;
use crate::command::{arg, opt_command_view, Command, CommandView, Outcome};
use crate::workspace::{git_command, spec_git};
use vstd::string::StringExecFns;

verus! {

broadcast use vstd::string::group_string_axioms;

/// Where a reconciliation stands.
#[derive(Clone, Copy, Debug, PartialEq, Eq, Structural)]
pub enum ReconcilePhase {
    /// Save the working tree's changes against the index.
    SaveUnstaged,
    /// Reset index and working tree to `HEAD`.
    Reset,
    /// Remove untracked files.
    Clean,
    /// Ask whether the branch exists locally.
    CheckLocal,
    /// Fetch the branch from the remote into a local branch of that name.
    Fetch,
    /// Check the local branch out.
    Checkout,
    /// Create the local branch tracking the remote's, and check it out.
    Track,
    /// Merge the saved changes back in, three-way.
    Reapply,
    /// On the branch, with the policy applied.
    Done,
    /// On the branch; the saved changes did not merge cleanly.
    Conflict,
    /// The checkout could not be brought onto the branch.
    Failed,
}

/// A reconciliation as plain values.
pub struct ReconcileView {
    pub branch: Seq<char>,
    pub had_staged_changes: bool,
    pub saved: Seq<u8>,
    pub phase: ReconcilePhase,
}

pub open spec fn save_command() -> CommandView {
    spec_git(seq!["diff"@, "--binary"@])
}

pub open spec fn reset_command() -> CommandView {
    spec_git(seq!["reset"@, "--hard"@, "HEAD"@])
}

pub open spec fn clean_command() -> CommandView {
    spec_git(seq!["clean"@, "-fd"@])
}

pub open spec fn check_local_command(branch: Seq<char>) -> CommandView {
    spec_git(seq!["rev-parse"@, "--verify"@, branch])
}

pub open spec fn fetch_command(branch: Seq<char>) -> CommandView {
    spec_git(seq!["fetch"@, "origin"@, branch + ":"@ + branch])
}

pub open spec fn checkout_command(branch: Seq<char>) -> CommandView {
    spec_git(seq!["checkout"@, branch])
}

pub open spec fn track_command(branch: Seq<char>) -> CommandView {
    spec_git(seq!["checkout"@, "-b"@, branch, "--track"@, "origin/"@ + branch])
}

pub open spec fn reapply_command(patch: Seq<u8>) -> CommandView {
    CommandView::Git { args: seq!["apply"@, "--3way"@, "-"@], input: Some(patch) }
}

pub open spec fn reconcile_command(v: ReconcileView) -> Option<CommandView> {
    match v.phase {
        ReconcilePhase::SaveUnstaged => Some(save_command()),
        ReconcilePhase::Reset => Some(reset_command()),
        ReconcilePhase::Clean => Some(clean_command()),
        ReconcilePhase::CheckLocal => Some(check_local_command(v.branch)),
        ReconcilePhase::Fetch => Some(fetch_command(v.branch)),
        ReconcilePhase::Checkout => Some(checkout_command(v.branch)),
        ReconcilePhase::Track => Some(track_command(v.branch)),
        ReconcilePhase::Reapply => Some(reapply_command(v.saved)),
        _ => None,
    }
}

pub open spec fn reconcile_with(v: ReconcileView, phase: ReconcilePhase) -> ReconcileView {
    ReconcileView { phase, ..v }
}

/// After the branch is checked out: merge the saved changes back, if any.
pub open spec fn after_checkout(v: ReconcileView) -> ReconcilePhase {
    if v.had_staged_changes && v.saved.len() > 0 {
        ReconcilePhase::Reapply
    } else {
        ReconcilePhase::Done
    }
}

/// The state after the current command ended, successfully when `ok`,
/// having printed `out`.
pub open spec fn reconcile_step(v: ReconcileView, ok: bool, out: Seq<u8>) -> ReconcileView {
    match v.phase {
        ReconcilePhase::SaveUnstaged => if ok {
            ReconcileView { saved: out, phase: ReconcilePhase::Reset, ..v }
        } else {
            reconcile_with(v, ReconcilePhase::Failed)
        },
        ReconcilePhase::Reset => if !ok {
            reconcile_with(v, ReconcilePhase::Failed)
        } else if v.had_staged_changes {
            reconcile_with(v, ReconcilePhase::CheckLocal)
        } else {
            reconcile_with(v, ReconcilePhase::Clean)
        },
        ReconcilePhase::Clean => if ok {
            reconcile_with(v, ReconcilePhase::CheckLocal)
        } else {
            reconcile_with(v, ReconcilePhase::Failed)
        },
        ReconcilePhase::CheckLocal => if ok {
            reconcile_with(v, ReconcilePhase::Checkout)
        } else {
            reconcile_with(v, ReconcilePhase::Fetch)
        },
        ReconcilePhase::Fetch => if ok {
            reconcile_with(v, ReconcilePhase::Checkout)
        } else {
            reconcile_with(v, ReconcilePhase::Track)
        },
        ReconcilePhase::Checkout | ReconcilePhase::Track => if ok {
            reconcile_with(v, after_checkout(v))
        } else {
            reconcile_with(v, ReconcilePhase::Failed)
        },
        ReconcilePhase::Reapply => if ok {
            reconcile_with(v, ReconcilePhase::Done)
        } else {
            reconcile_with(v, ReconcilePhase::Conflict)
        },
        _ => v,
    }
}

/// The state in which reconciling onto `branch` begins.
pub open spec fn initial_reconcile(branch: Seq<char>, had_staged_changes: bool) -> ReconcileView {
    ReconcileView {
        branch,
        had_staged_changes,
        saved: seq![],
        phase: if had_staged_changes {
            ReconcilePhase::SaveUnstaged
        } else {
            ReconcilePhase::Reset
        },
    }
}

/// Brings the original checkout onto the pushed branch.
pub struct Reconciliation {
    pub branch: String,
    pub had_staged_changes: bool,
    pub saved: Vec<u8>,
    pub phase: ReconcilePhase,
}

impl View for Reconciliation {
    type V = ReconcileView;

    open spec fn view(&self) -> ReconcileView {
        ReconcileView {
            branch: self.branch@,
            had_staged_changes: self.had_staged_changes,
            saved: self.saved@,
            phase: self.phase,
        }
    }
}

impl Reconciliation {
    /// A reconciliation onto `pr_branch`; `had_staged_changes` tells whether
    /// only the staged part of the dirty state went into the branch.
    pub fn start(pr_branch: String, had_staged_changes: bool) -> (r: Self)
        ensures
            r@ == initial_reconcile(pr_branch@, had_staged_changes),
    {
        let r = Reconciliation {
            branch: pr_branch,
            had_staged_changes,
            saved: Vec::new(),
            phase: if had_staged_changes {
                ReconcilePhase::SaveUnstaged
            } else {
                ReconcilePhase::Reset
            },
        };
        assert(r@.saved =~= seq![]);
        r
    }

    pub fn phase(&self) -> (r: ReconcilePhase)
        ensures
            r == self@.phase,
    {
        self.phase
    }

    /// The changes saved from the working tree, to be merged back.
    pub fn saved_patch(&self) -> (r: &Vec<u8>)
        ensures
            r@ == self@.saved,
    {
        &self.saved
    }

    /// The state after the current command ended as `outcome` tells.
    pub fn advance(&mut self, outcome: Outcome)
        ensures
            final(self)@ == reconcile_step(old(self)@, outcome.success, outcome.stdout@),
    {
        let ok = outcome.success;
        let next = match self.phase {
            ReconcilePhase::SaveUnstaged => if ok {
                self.saved = outcome.stdout;
                ReconcilePhase::Reset
            } else {
                ReconcilePhase::Failed
            },
            ReconcilePhase::Reset => if !ok {
                ReconcilePhase::Failed
            } else if self.had_staged_changes {
                ReconcilePhase::CheckLocal
            } else {
                ReconcilePhase::Clean
            },
            ReconcilePhase::Clean => if ok {
                ReconcilePhase::CheckLocal
            } else {
                ReconcilePhase::Failed
            },
            ReconcilePhase::CheckLocal => if ok {
                ReconcilePhase::Checkout
            } else {
                ReconcilePhase::Fetch
            },
            ReconcilePhase::Fetch => if ok {
                ReconcilePhase::Checkout
            } else {
                ReconcilePhase::Track
            },
            ReconcilePhase::Checkout | ReconcilePhase::Track => if !ok {
                ReconcilePhase::Failed
            } else if self.had_staged_changes && self.saved.len() > 0 {
                ReconcilePhase::Reapply
            } else {
                ReconcilePhase::Done
            },
            ReconcilePhase::Reapply => if ok {
                ReconcilePhase::Done
            } else {
                ReconcilePhase::Conflict
            },
            p => p,
        };
        self.phase = next;
    }

    /// The command the reconciliation asks for now; `None` once it is over.
    pub fn command(&self) -> (r: Option<Command>)
        ensures
            opt_command_view(r) == reconcile_command(self@),
    {
        let b = &self.branch;
        match self.phase {
            ReconcilePhase::SaveUnstaged => {
                let args = vec![arg("diff"), arg("--binary")];
                assert(args.deep_view() =~= seq!["diff"@, "--binary"@]);
                Some(git_command(args))
            },
            ReconcilePhase::Reset => {
                let args = vec![arg("reset"), arg("--hard"), arg("HEAD")];
                assert(args.deep_view() =~= seq!["reset"@, "--hard"@, "HEAD"@]);
                Some(git_command(args))
            },
            ReconcilePhase::Clean => {
                let args = vec![arg("clean"), arg("-fd")];
                assert(args.deep_view() =~= seq!["clean"@, "-fd"@]);
                Some(git_command(args))
            },
            ReconcilePhase::CheckLocal => {
                let args = vec![arg("rev-parse"), arg("--verify"), b.clone()];
                assert(args.deep_view() =~= seq!["rev-parse"@, "--verify"@, b@]);
                Some(git_command(args))
            },
            ReconcilePhase::Fetch => {
                let mut spec = b.clone();
                spec.append(":");
                spec.append(b.as_str());
                let args = vec![arg("fetch"), arg("origin"), spec];
                assert(args.deep_view() =~= seq!["fetch"@, "origin"@, b@ + ":"@ + b@]);
                Some(git_command(args))
            },
            ReconcilePhase::Checkout => {
                let args = vec![arg("checkout"), b.clone()];
                assert(args.deep_view() =~= seq!["checkout"@, b@]);
                Some(git_command(args))
            },
            ReconcilePhase::Track => {
                let mut remote = String::from_str("origin/");
                remote.append(b.as_str());
                let args = vec![arg("checkout"), arg("-b"), b.clone(), arg("--track"), remote];
                assert(args.deep_view() =~= seq!["checkout"@, "-b"@, b@, "--track"@, "origin/"@ + b@]);
                Some(git_command(args))
            },
            ReconcilePhase::Reapply => {
                let input = self.saved.clone();
                assert(input@ =~= self@.saved);
                let args = vec![arg("apply"), arg("--3way"), arg("-")];
                assert(args.deep_view() =~= seq!["apply"@, "--3way"@, "-"@]);
                Some(Command::Git { args, input: Some(input) })
            },
            _ => None,
        }
    }
}

/// The state reached from `v` when its commands end as `outs` says (success,
/// printed bytes), stopping where the reconciliation is over.
pub open spec fn reconcile_run(v: ReconcileView, outs: Seq<(bool, Seq<u8>)>) -> ReconcileView
    decreases outs.len(),
{
    if outs.len() == 0 || reconcile_command(v).is_none() {
        v
    } else {
        reconcile_run(reconcile_step(v, outs[0].0, outs[0].1), outs.drop_first())
    }
}

/// The commands asked for along that run, in order.
pub open spec fn reconcile_trace(v: ReconcileView, outs: Seq<(bool, Seq<u8>)>) -> Seq<CommandView>
    decreases outs.len(),
{
    if outs.len() == 0 || reconcile_command(v).is_none() {
        seq![]
    } else {
        seq![reconcile_command(v).unwrap()] + reconcile_trace(
            reconcile_step(v, outs[0].0, outs[0].1),
            outs.drop_first(),
        )
    }
}

/// The ways of getting onto `branch`: the local branch; the remote's fetched
/// into a local one; a new local branch tracking the remote's.
pub open spec fn is_checkout_route(route: Seq<CommandView>, branch: Seq<char>) -> bool {
    ||| route == seq![check_local_command(branch), checkout_command(branch)]
    ||| route == seq![check_local_command(branch), fetch_command(branch), checkout_command(branch)]
    ||| route == seq![check_local_command(branch), fetch_command(branch), track_command(branch)]
}

pub open spec fn landed(p: ReconcilePhase) -> bool {
    p is Done || p is Conflict
}

/// What follows the checkout: the saved changes merged back, if there are any.
pub open spec fn reapply_part(v: ReconcileView) -> Seq<CommandView> {
    if v.had_staged_changes && v.saved.len() > 0 {
        seq![reapply_command(v.saved)]
    } else {
        seq![]
    }
}

proof fn lemma_route(v: ReconcileView, outs: Seq<(bool, Seq<u8>)>)
    requires
        v.phase is CheckLocal || v.phase is Fetch || v.phase is Checkout || v.phase is Track,
        landed(reconcile_run(v, outs).phase),
    ensures
        v.phase is CheckLocal ==> exists|route: Seq<CommandView>|
            is_checkout_route(route, v.branch) && reconcile_trace(v, outs) == route + reapply_part(v),
        v.phase is Fetch ==> reconcile_trace(v, outs) == seq![fetch_command(v.branch), checkout_command(v.branch)]
            + reapply_part(v) || reconcile_trace(v, outs) == seq![fetch_command(v.branch), track_command(v.branch)]
            + reapply_part(v),
        v.phase is Checkout ==> reconcile_trace(v, outs) == seq![checkout_command(v.branch)] + reapply_part(v),
        v.phase is Track ==> reconcile_trace(v, outs) == seq![track_command(v.branch)] + reapply_part(v),
    decreases outs.len(),
{
    if outs.len() == 0 || reconcile_command(v).is_none() {
    } else {
        let n = reconcile_step(v, outs[0].0, outs[0].1);
        let rest_outs = outs.drop_first();
        let t = reconcile_trace(v, outs);
        let rest = reconcile_trace(n, rest_outs);
        assert(t == seq![reconcile_command(v).unwrap()] + rest);
        assert(reconcile_run(v, outs) == reconcile_run(n, rest_outs));
        if v.phase is Checkout || v.phase is Track {
            if n.phase is Reapply {
                let m = reconcile_step(n, rest_outs[0].0, rest_outs[0].1);
                assert(rest_outs.len() > 0);
                assert(reconcile_trace(m, rest_outs.drop_first()) =~= seq![]);
                assert(rest =~= seq![reapply_command(v.saved)]);
            } else {
                assert(rest =~= seq![]);
            }
            assert(t =~= seq![reconcile_command(v).unwrap()] + reapply_part(v));
        } else {
            lemma_route(n, rest_outs);
            if v.phase is Fetch {
                if n.phase is Checkout {
                    assert(t =~= seq![fetch_command(v.branch), checkout_command(v.branch)] + reapply_part(v));
                } else {
                    assert(t =~= seq![fetch_command(v.branch), track_command(v.branch)] + reapply_part(v));
                }
            } else {
                if n.phase is Checkout {
                    let route = seq![check_local_command(v.branch), checkout_command(v.branch)];
                    assert(t =~= route + reapply_part(v));
                } else if rest == seq![fetch_command(v.branch), checkout_command(v.branch)] + reapply_part(v) {
                    let route = seq![check_local_command(v.branch), fetch_command(v.branch), checkout_command(v.branch)];
                    assert(t =~= route + reapply_part(v));
                } else {
                    let route = seq![check_local_command(v.branch), fetch_command(v.branch), track_command(v.branch)];
                    assert(t =~= route + reapply_part(v));
                }
            }
        }
    }
}

/// Preservation: when only the staged part of the dirty state went into the
/// branch, a reconciliation that lands on the branch first saves the working
/// tree's changes as printed by the diff, then resets, then gets onto the
/// branch, then merges exactly the saved changes back (when there were any);
/// untracked files are never removed.
pub proof fn lemma_reconcile_preserves_unstaged(branch: Seq<char>, outs: Seq<(bool, Seq<u8>)>)
    requires
        landed(reconcile_run(initial_reconcile(branch, true), outs).phase),
    ensures
        exists|route: Seq<CommandView>|
            #![trigger is_checkout_route(route, branch)]
            is_checkout_route(route, branch) && reconcile_trace(initial_reconcile(branch, true), outs) == seq![
                save_command(),
                reset_command(),
            ] + route + (if outs[0].1.len() > 0 {
                seq![reapply_command(outs[0].1)]
            } else {
                seq![]
            }),
{
    let v0 = initial_reconcile(branch, true);
    let o1 = outs.drop_first();
    let v1 = reconcile_step(v0, outs[0].0, outs[0].1);
    assert(outs.len() > 0);
    assert(reconcile_run(v0, outs) == reconcile_run(v1, o1));
    if !outs[0].0 {
        assert(reconcile_run(v1, o1) == v1);
    }
    assert(v1.phase is Reset);
    assert(o1.len() > 0);
    let o2 = o1.drop_first();
    let v2 = reconcile_step(v1, o1[0].0, o1[0].1);
    assert(reconcile_run(v1, o1) == reconcile_run(v2, o2));
    if !o1[0].0 {
        assert(reconcile_run(v2, o2) == v2);
    }
    assert(v2.phase is CheckLocal);
    lemma_route(v2, o2);
    let route = choose|route: Seq<CommandView>|
        is_checkout_route(route, branch) && reconcile_trace(v2, o2) == route + reapply_part(v2);
    assert(reconcile_trace(v0, outs) == seq![save_command()] + reconcile_trace(v1, o1));
    assert(reconcile_trace(v1, o1) == seq![reset_command()] + reconcile_trace(v2, o2));
    assert(v2.saved == outs[0].1);
    assert(reconcile_trace(v0, outs) =~= seq![save_command(), reset_command()] + route + reapply_part(v2));
}

/// Discard: when everything went into the branch, a reconciliation that
/// lands on the branch resets, removes untracked files, then gets onto the
/// branch, and merges nothing back.
pub proof fn lemma_reconcile_discards_leftovers(branch: Seq<char>, outs: Seq<(bool, Seq<u8>)>)
    requires
        landed(reconcile_run(initial_reconcile(branch, false), outs).phase),
    ensures
        reconcile_run(initial_reconcile(branch, false), outs).phase is Done,
        exists|route: Seq<CommandView>|
            #![trigger is_checkout_route(route, branch)]
            is_checkout_route(route, branch) && reconcile_trace(initial_reconcile(branch, false), outs)
                == seq![reset_command(), clean_command()] + route,
{
    let v0 = initial_reconcile(branch, false);
    let o1 = outs.drop_first();
    let v1 = reconcile_step(v0, outs[0].0, outs[0].1);
    assert(outs.len() > 0);
    assert(reconcile_run(v0, outs) == reconcile_run(v1, o1));
    if !outs[0].0 {
        assert(reconcile_run(v1, o1) == v1);
    }
    assert(v1.phase is Clean);
    assert(o1.len() > 0);
    let o2 = o1.drop_first();
    let v2 = reconcile_step(v1, o1[0].0, o1[0].1);
    assert(reconcile_run(v1, o1) == reconcile_run(v2, o2));
    if !o1[0].0 {
        assert(reconcile_run(v2, o2) == v2);
    }
    assert(v2.phase is CheckLocal);
    lemma_route(v2, o2);
    lemma_never_conflicts(v2, o2);
    let route = choose|route: Seq<CommandView>|
        is_checkout_route(route, branch) && reconcile_trace(v2, o2) == route + reapply_part(v2);
    assert(reapply_part(v2) =~= seq![]);
    assert(reconcile_trace(v0, outs) == seq![reset_command()] + reconcile_trace(v1, o1));
    assert(reconcile_trace(v1, o1) == seq![clean_command()] + reconcile_trace(v2, o2));
    assert(reconcile_trace(v0, outs) =~= seq![reset_command(), clean_command()] + route);
}

proof fn lemma_never_conflicts(v: ReconcileView, outs: Seq<(bool, Seq<u8>)>)
    requires
        !v.had_staged_changes,
        !(v.phase is Reapply),
        !(v.phase is Conflict),
    ensures
        !(reconcile_run(v, outs).phase is Conflict),
    decreases outs.len(),
{
    if outs.len() == 0 || reconcile_command(v).is_none() {
    } else {
        let n = reconcile_step(v, outs[0].0, outs[0].1);
        assert(reconcile_run(v, outs) == reconcile_run(n, outs.drop_first()));
        lemma_never_conflicts(n, outs.drop_first());
    }
}

} // verus!
