//! Decisions about pull requests, issues and merged branches on the forge.
use vstd::prelude::*;
use crate::branches::opt_string;
use crate::command::arg;
use crate::json::{as_u64, elements, json_document, json_elements, json_member, json_u64, member, member_string, member_text, parse_json};
use crate::text::{decimal, matches_at, push_decimal, same_text, trim_ws, trimmed};
use vstd::string::{StrSliceExecFns, StringExecFns};

verus! {

broadcast use vstd::string::group_string_axioms;

/// `p` occurs somewhere in `s`.
pub open spec fn occurs_in(s: Seq<char>, p: Seq<char>) -> bool {
    exists|i: int| 0 <= i && i + p.len() <= s.len() && #[trigger] s.subrange(i, i + p.len()) == p
}

pub fn contains_text(s: &str, p: &str) -> (r: bool)
    ensures
        r == occurs_in(s@, p@),
{
    let n = s.unicode_len();
    let m = p.unicode_len();
    if m > n {
        return false;
    }
    if m == 0 {
        assert(s@.subrange(0, 0 + p@.len() as int) =~= p@);
        return true;
    }
    let mut i: usize = 0;
    while i <= n - m
        invariant
            n == s@.len(),
            m == p@.len(),
            1 <= m <= n,
            i <= n - m + 1,
            forall|j: int| 0 <= j < i ==> #[trigger] s@.subrange(j, j + m) != p@,
        decreases n - m + 1 - i,
    {
        if matches_at(s, p, i) {
            return true;
        }
        i += 1;
    }
    false
}

/// Marker `gh pr list` prints when no pull request matches.
pub const NO_MATCHING_PR: &'static str = "no pull requests match your search";

/// Whether a `gh pr list --head <branch>` run shows an open pull request.
pub open spec fn spec_open_pr_listed(success: bool, stdout: Seq<char>) -> bool {
    let t = trimmed(stdout);
    success && !(t.len() == 0 || (NO_MATCHING_PR@.len() <= t.len() && t.subrange(0, NO_MATCHING_PR@.len() as int)
        == NO_MATCHING_PR@))
}

pub fn open_pr_listed(success: bool, stdout: &str) -> (r: bool)
    ensures
        r == spec_open_pr_listed(success, stdout@),
{
    let t = trim_ws(stdout);
    success && !(t.unicode_len() == 0 || matches_at(t, NO_MATCHING_PR, 0))
}

/// What to do about the pull request of a branch.
#[derive(Clone, Copy, Debug, PartialEq, Eq, Structural)]
pub enum PrAction {
    /// Edit the existing pull request.
    Update,
    /// Open a new pull request.
    Create,
    /// An update was asked for, but there is no pull request to update.
    NothingToUpdate,
}

pub fn choose_pr_action(update_requested: bool, pr_exists: bool) -> (r: PrAction)
    ensures
        r == (if !update_requested {
            PrAction::Create
        } else if pr_exists {
            PrAction::Update
        } else {
            PrAction::NothingToUpdate
        }),
{
    if !update_requested {
        PrAction::Create
    } else if pr_exists {
        PrAction::Update
    } else {
        PrAction::NothingToUpdate
    }
}

/// Arguments to `gh` that edit the current branch's pull request.
pub fn pr_edit_args(title: &str, body: &str) -> (r: Vec<String>)
    ensures
        r.deep_view() == seq!["pr"@, "edit"@, "--title"@, title@, "--body"@, body@, "--add-assignee"@, "@me"@],
{
    let r = vec![arg("pr"), arg("edit"), arg("--title"), arg(title), arg("--body"), arg(body), arg("--add-assignee"), arg("@me")];
    assert(r.deep_view() =~= seq!["pr"@, "edit"@, "--title"@, title@, "--body"@, body@, "--add-assignee"@, "@me"@]);
    r
}

pub open spec fn spec_pr_create_args(
    title: Seq<char>,
    body: Seq<char>,
    head: Seq<char>,
    base: Seq<char>,
    ready: bool,
) -> Seq<Seq<char>> {
    let a = seq![
        "pr"@,
        "create"@,
        "--title"@,
        title,
        "--body"@,
        body,
        "--assignee"@,
        "@me"@,
        "--head"@,
        head,
        "--base"@,
        base,
    ];
    if ready {
        a
    } else {
        a.push("--draft"@)
    }
}

/// Arguments to `gh` that open a pull request from `head` into `base`, as a
/// draft unless `ready`.
pub fn pr_create_args(title: &str, body: &str, head: &str, base: &str, ready: bool) -> (r: Vec<String>)
    ensures
        r.deep_view() == spec_pr_create_args(title@, body@, head@, base@, ready),
{
    let mut r = vec![
        arg("pr"),
        arg("create"),
        arg("--title"),
        arg(title),
        arg("--body"),
        arg(body),
        arg("--assignee"),
        arg("@me"),
        arg("--head"),
        arg(head),
        arg("--base"),
        arg(base),
    ];
    let ghost a = r.deep_view();
    assert(a =~= seq![
        "pr"@,
        "create"@,
        "--title"@,
        title@,
        "--body"@,
        body@,
        "--assignee"@,
        "@me"@,
        "--head"@,
        head@,
        "--base"@,
        base@,
    ]);
    if !ready {
        r.push(arg("--draft"));
        assert(r.deep_view() =~= a.push("--draft"@));
    }
    r
}

/// Message `gh issue list` prints when the repository has issues turned off.
pub const ISSUES_DISABLED: &'static str = "has disabled issues";

/// The open-issues listing to hand on: what `gh issue list` printed, an
/// empty JSON array when the repository has issues turned off, or `None`
/// when listing failed otherwise.
pub open spec fn spec_issues_listing(success: bool, stdout: Seq<char>, stderr: Seq<char>) -> Option<Seq<char>> {
    if success {
        Some(stdout)
    } else if occurs_in(stderr, ISSUES_DISABLED@) {
        Some("[]"@)
    } else {
        None
    }
}

pub fn issues_listing(success: bool, stdout: String, stderr: &str) -> (r: Option<String>)
    ensures
        opt_string(r) == spec_issues_listing(success, stdout@, stderr@),
{
    if success {
        Some(stdout)
    } else if contains_text(stderr, ISSUES_DISABLED) {
        Some(arg("[]"))
    } else {
        None
    }
}

/// A merged pull request: its head branch and its number.
pub open spec fn merged_entry(v: serde_json::Value) -> Option<(Seq<char>, u64)> {
    match (member_text(v, "headRefName"@), json_member(v, "number"@)) {
        (Some(b), Some(n)) => match json_u64(n) {
            Some(k) => Some((b, k)),
            None => None,
        },
        _ => None,
    }
}

/// The merged pull requests among `items`, in order; items without a string
/// head branch or an unsigned number are passed over.
pub open spec fn merged_entries(items: Seq<serde_json::Value>) -> Seq<(Seq<char>, u64)>
    decreases items.len(),
{
    if items.len() == 0 {
        seq![]
    } else {
        let before = merged_entries(items.drop_last());
        match merged_entry(items.last()) {
            Some(e) => before.push(e),
            None => before,
        }
    }
}

pub open spec fn merged_view(r: Vec<(String, u64)>) -> Seq<(Seq<char>, u64)> {
    r@.map_values(|e: (String, u64)| (e.0@, e.1))
}

/// Reads `gh pr list --state merged --json headRefName,number,title`:
/// `None` when the text is not a JSON array.
pub fn merged_pull_requests(listing: &str) -> (r: Option<Vec<(String, u64)>>)
    ensures
        match r {
            Some(v) => json_document(listing@) matches Some(doc) && json_elements(doc) matches Some(items)
                && merged_view(v) == merged_entries(items),
            None => match json_document(listing@) {
                Some(doc) => json_elements(doc) is None,
                None => true,
            },
        },
{
    let doc = match parse_json(listing) {
        Some(d) => d,
        None => return None,
    };
    let items = match elements(&doc) {
        Some(items) => items,
        None => return None,
    };
    let mut r: Vec<(String, u64)> = Vec::new();
    let mut i: usize = 0;
    while i < items.len()
        invariant
            i <= items.len(),
            merged_view(r) == merged_entries(items@.subrange(0, i as int)),
        decreases items.len() - i,
    {
        let ghost prefix = items@.subrange(0, i + 1);
        assert(prefix.drop_last() =~= items@.subrange(0, i as int));
        let item = &items[i];
        let branch = member_string(item, "headRefName");
        let number = match member(item, "number") {
            Some(n) => as_u64(n),
            None => None,
        };
        match (branch, number) {
            (Some(b), Some(k)) => {
                r.push((b, k));
                assert(merged_view(r) =~= merged_entries(items@.subrange(0, i as int)).push((b@, k)));
            },
            _ => {},
        }
        i += 1;
    }
    assert(items@.subrange(0, items@.len() as int) =~= items@);
    Some(r)
}

/// How a merged pull request is referred to in messages.
pub fn pr_label(number: u64) -> (r: String)
    ensures
        r@ == "PR #"@ + decimal(number as nat),
{
    let mut r = String::from_str("PR #");
    push_decimal(&mut r, number);
    r
}

/// What pruning does with one local branch.
#[derive(Clone, Copy, Debug, PartialEq, Eq, Structural)]
pub enum PruneAction {
    /// The branch is checked out: keep it.
    KeepCurrent,
    /// The branch is the main branch: keep it.
    KeepMain,
    /// A pull request from it was merged: delete it.
    DeleteMerged,
    /// Ask the remote whether the tracked branch still exists.
    CheckRemote,
    /// No remote branch is tracked: keep it.
    KeepUntracked,
}

pub fn prune_action(branch: &str, current: &str, main: &str, merged: bool, tracks_remote: bool) -> (r: PruneAction)
    ensures
        r == (if branch@ == current@ {
            PruneAction::KeepCurrent
        } else if branch@ == main@ {
            PruneAction::KeepMain
        } else if merged {
            PruneAction::DeleteMerged
        } else if tracks_remote {
            PruneAction::CheckRemote
        } else {
            PruneAction::KeepUntracked
        }),
{
    if same_text(branch, current) {
        PruneAction::KeepCurrent
    } else if same_text(branch, main) {
        PruneAction::KeepMain
    } else if merged {
        PruneAction::DeleteMerged
    } else if tracks_remote {
        PruneAction::CheckRemote
    } else {
        PruneAction::KeepUntracked
    }
}

/// Whether `branch` is the head of one of the merged pull requests.
pub fn was_merged(merged: &Vec<(String, u64)>, branch: &str) -> (r: bool)
    ensures
        r == exists|i: int| 0 <= i < merged@.len() && #[trigger] merged@[i].0@ == branch@,
{
    let mut i: usize = 0;
    while i < merged.len()
        invariant
            i <= merged.len(),
            forall|j: int| 0 <= j < i ==> #[trigger] merged@[j].0@ != branch@,
        decreases merged.len() - i,
    {
        if same_text(merged[i].0.as_str(), branch) {
            return true;
        }
        i += 1;
    }
    false
}

} // verus!
