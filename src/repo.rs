//! Small decisions of the pull-request workflow on the repository.
use vstd::prelude::*;
use crate::command::arg;
use crate::reply::{strip_leading, trim_start_all};
use crate::snapshot::{list_entries, split_entries};
use crate::text::{is_truncation_point, matches_at, same_text, trim_ws, trimmed, truncate_utf8};
use vstd::string::{StrSliceExecFns, StringExecFns, StringSliceAdditionalSpecFns};
use vstd::utf8::encode_utf8;

verus! {

broadcast use vstd::string::group_string_axioms;

/// Largest number of bytes of a diff handed to the text generator.
pub const MAX_DIFF_BYTES: usize = 204800;

/// A diff as handed to the text generator: trimmed, `None` when nothing is
/// left, and cut to [`MAX_DIFF_BYTES`] on a character boundary.
pub fn description_diff(diff: &str) -> (r: Option<String>)
    requires
        diff.spec_bytes().len() <= usize::MAX,
    ensures
        trimmed(diff@).len() == 0 <==> r is None,
        r matches Some(d) ==> ({
            let t = encode_utf8(trimmed(diff@));
            &&& t.len() <= MAX_DIFF_BYTES ==> d@ == trimmed(diff@)
            &&& t.len() > MAX_DIFF_BYTES ==> is_truncation_point(t, MAX_DIFF_BYTES as int, encode_utf8(d@).len() as int)
                && encode_utf8(d@) == t.subrange(0, encode_utf8(d@).len() as int)
        }),
{
    let t = trim_ws(diff);
    if t.unicode_len() == 0 {
        return None;
    }
    Some(truncate_utf8(t, MAX_DIFF_BYTES))
}

/// A commit message: the trimmed title, then, when there are details, a
/// blank line and the trimmed details.
pub open spec fn spec_commit_message(title: Seq<char>, details: Option<Seq<char>>) -> Seq<char> {
    match details {
        Some(d) => trimmed(title) + "\n\n"@ + trimmed(d),
        None => trimmed(title),
    }
}

pub fn commit_message(title: &str, details: Option<&str>) -> (r: String)
    ensures
        r@ == spec_commit_message(title@, crate::branches::opt_str(details)),
{
    let mut m = trim_ws(title).to_owned();
    if let Some(d) = details {
        m.append("\n\n");
        m.append(trim_ws(d));
    }
    m
}

/// Arguments to git that push `branch` to `origin`, setting the upstream
/// when the branch has none yet.
pub fn push_args(branch: &str, has_upstream: bool) -> (r: Vec<String>)
    ensures
        r.deep_view() == (if has_upstream {
            seq!["push"@, "origin"@, branch@]
        } else {
            seq!["push"@, "--set-upstream"@, "origin"@, branch@]
        }),
{
    if has_upstream {
        let r = vec![arg("push"), arg("origin"), arg(branch)];
        assert(r.deep_view() =~= seq!["push"@, "origin"@, branch@]);
        r
    } else {
        let r = vec![arg("push"), arg("--set-upstream"), arg("origin"), arg(branch)];
        assert(r.deep_view() =~= seq!["push"@, "--set-upstream"@, "origin"@, branch@]);
        r
    }
}

/// Whether creating `branch` must be refused: it exists and rewriting it
/// was not asked for.
pub fn refuse_new_branch(exists: bool, force_reset: bool) -> (r: bool)
    ensures
        r == (exists && !force_reset),
{
    exists && !force_reset
}

/// Arguments to git that create (or reset) `branch` at the tip of `from`
/// and check it out.
pub fn new_branch_args(branch: &str, from: &str) -> (r: Vec<String>)
    ensures
        r.deep_view() == seq!["checkout"@, "-B"@, branch@, from@],
{
    let r = vec![arg("checkout"), arg("-B"), arg(branch), arg(from)];
    assert(r.deep_view() =~= seq!["checkout"@, "-B"@, branch@, from@]);
    r
}

/// How the checkout catches up with the remote before the workflow.
#[derive(Clone, Copy, Debug, PartialEq, Eq, Structural)]
pub enum SyncPlan {
    /// On the main branch with staged changes: save both halves of the
    /// dirty state as patches, reset, pull, then apply them back.
    PullPreservingDirtyState,
    /// On the main branch, nothing staged: pull.
    Pull,
    /// On another branch: fast-forward the local main branch from the remote.
    FetchMain,
}

pub fn sync_plan(current: &str, main: &str, has_staged_changes: bool) -> (r: SyncPlan)
    ensures
        r == (if current@ != main@ {
            SyncPlan::FetchMain
        } else if has_staged_changes {
            SyncPlan::PullPreservingDirtyState
        } else {
            SyncPlan::Pull
        }),
{
    if !same_text(current, main) {
        SyncPlan::FetchMain
    } else if has_staged_changes {
        SyncPlan::PullPreservingDirtyState
    } else {
        SyncPlan::Pull
    }
}

/// Arguments to git that update the local `main` from the remote's.
pub fn fetch_main_args(main: &str) -> (r: Vec<String>)
    ensures
        r.deep_view() == seq!["fetch"@, "origin"@, main@ + ":"@ + main@],
{
    let mut spec = String::from_str(main);
    spec.append(":");
    spec.append(main);
    let r = vec![arg("fetch"), arg("origin"), spec];
    assert(r.deep_view() =~= seq!["fetch"@, "origin"@, main@ + ":"@ + main@]);
    r
}

pub open spec fn is_blank(c: char) -> bool {
    c == ' ' || c == '\t' || c == '\r'
}

/// The first position from `i` on whose character is not blank (when
/// `blank`) or is blank (when not), or the end of `s`.
pub open spec fn skip_from(s: Seq<char>, i: int, blank: bool) -> int
    decreases s.len() - i,
{
    if 0 <= i < s.len() && is_blank(s[i]) == blank {
        skip_from(s, i + 1, blank)
    } else {
        i
    }
}

/// The second blank-separated word of `s`; empty when there is none.
pub open spec fn second_word(s: Seq<char>) -> Seq<char> {
    let a = skip_from(s, 0, false);
    let b = skip_from(s, a, true);
    s.subrange(b, skip_from(s, b, false))
}

fn blank_at(s: &str, j: usize) -> (r: bool)
    requires
        j < s@.len(),
    ensures
        r == is_blank(s@[j as int]),
{
    let c = s.get_char(j);
    c == ' ' || c == '\t' || c == '\r'
}

/// Moves from `i` past blanks (when `blank`) or past a word (when not).
pub fn skip_word_or_blank(s: &str, n: usize, i: usize, blank: bool) -> (r: usize)
    requires
        n == s@.len(),
        i <= n,
    ensures
        r as int == skip_from(s@, i as int, blank),
        i <= r <= n,
{
    let mut j = i;
    while j < n && blank_at(s, j) == blank
        invariant
            n == s@.len(),
            i <= j <= n,
            skip_from(s@, j as int, blank) == skip_from(s@, i as int, blank),
        decreases n - j,
    {
        j += 1;
    }
    j
}

/// A file header line of a patch: it begins with `+++` or `---`.
pub open spec fn is_file_header(line: Seq<char>) -> bool {
    ||| "+++"@.len() <= line.len() && line.subrange(0, "+++"@.len() as int) == "+++"@
    ||| "---"@.len() <= line.len() && line.subrange(0, "---"@.len() as int) == "---"@
}

/// The position of the last `/` among the first `k` characters of `p`, or -1.
pub open spec fn last_slash(p: Seq<char>, k: int) -> int
    decreases k,
{
    if k <= 0 {
        -1
    } else if p[k - 1] == '/' {
        k - 1
    } else {
        last_slash(p, k - 1)
    }
}

/// The directory of the file a patch header line names, without the `b/`
/// side prefix; `None` for other lines, for `/dev/null`, and for files at
/// the top of the tree.
pub open spec fn header_dir(line: Seq<char>) -> Option<Seq<char>> {
    let p = strip_leading(second_word(line), "b/"@);
    let k = last_slash(p, p.len() as int);
    if !is_file_header(line) || p.len() == 0 || p == "/dev/null"@ || k <= 0 {
        None
    } else {
        Some(p.subrange(0, k))
    }
}

/// The directories named by the header lines, each once, in order of first
/// mention.
pub open spec fn header_dirs(lines: Seq<Seq<char>>) -> Seq<Seq<char>>
    decreases lines.len(),
{
    if lines.len() == 0 {
        seq![]
    } else {
        let before = header_dirs(lines.drop_last());
        match header_dir(lines.last()) {
            Some(d) => if before.contains(d) {
                before
            } else {
                before.push(d)
            },
            None => before,
        }
    }
}

fn dir_of_header(line: &str) -> (r: Option<String>)
    ensures
        match r {
            Some(d) => header_dir(line@) == Some(d@),
            None => header_dir(line@) is None,
        },
{
    let n = line.unicode_len();
    let a = skip_word_or_blank(line, n, 0, false);
    let b = skip_word_or_blank(line, n, a, true);
    let c = skip_word_or_blank(line, n, b, false);
    let word = line.substring_char(b, c);
    let p = trim_start_all(word, "b/");
    if !(matches_at(line, "+++", 0) || matches_at(line, "---", 0)) {
        return None;
    }
    let m = p.unicode_len();
    if m == 0 || same_text(p, "/dev/null") {
        return None;
    }
    let mut k = m;
    while k > 0 && p.get_char(k - 1) != '/'
        invariant
            m == p@.len(),
            k <= m,
            last_slash(p@, k as int) == last_slash(p@, m as int),
        decreases k,
    {
        k -= 1;
    }
    if k <= 1 {
        return None;
    }
    Some(p.substring_char(0, k - 1).to_owned())
}

/// Directories a patch writes into, so they can be created before it is
/// applied again.
pub fn patch_dirs(patch: &str) -> (r: Vec<String>)
    ensures
        r.deep_view() == header_dirs(list_entries(patch@, '\n')),
{
    let lines = split_entries(patch, '\n');
    let ghost ls = lines.deep_view();
    let mut r: Vec<String> = Vec::new();
    let mut i: usize = 0;
    while i < lines.len()
        invariant
            ls == lines.deep_view(),
            i <= lines.len(),
            r.deep_view() == header_dirs(ls.subrange(0, i as int)),
        decreases lines.len() - i,
    {
        assert(ls.subrange(0, i + 1).drop_last() =~= ls.subrange(0, i as int));
        assert(lines[i as int]@ == ls[i as int]);
        if let Some(d) = dir_of_header(lines[i].as_str()) {
            let mut seen = false;
            let mut j: usize = 0;
            while j < r.len()
                invariant
                    j <= r.len(),
                    seen == exists|k: int| 0 <= k < j && #[trigger] r@[k]@ == d@,
                decreases r.len() - j,
            {
                if same_text(r[j].as_str(), d.as_str()) {
                    seen = true;
                }
                j += 1;
            }
            proof {
                let before = header_dirs(ls.subrange(0, i as int));
                if seen {
                    let k = choose|k: int| 0 <= k < r@.len() && #[trigger] r@[k]@ == d@;
                    assert(before[k] == d@);
                } else {
                    assert forall|k: int| 0 <= k < before.len() implies before[k] != d@ by {
                        assert(before[k] == r@[k]@);
                    }
                }
            }
            if !seen {
                r.push(d);
                assert(r.deep_view() =~= header_dirs(ls.subrange(0, i as int)).push(d@));
            }
        }
        i += 1;
    }
    assert(ls.subrange(0, ls.len() as int) =~= ls);
    r
}

/// Whether `git rev-parse --abbrev-ref HEAD` printed the name of no branch:
/// `HEAD` is detached.
pub fn is_detached_head(branch: &str) -> (r: bool)
    ensures
        r == (branch@ == "HEAD"@),
{
    same_text(branch, "HEAD")
}

} // verus!
