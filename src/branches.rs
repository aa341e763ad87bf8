//! Choosing branches: the base a change is compared against, and the branch
//! another was forked from.
use vstd::prelude::*;
use crate::json::{elements, json_document, json_elements, member_string, member_text, parse_json};
use crate::reply::{strip_leading, trim_start_all};
use crate::repo::{skip_from, skip_word_or_blank};
use crate::snapshot::{list_entries, split_entries};
use crate::text::{same_text, trim_ws, trimmed};
use vstd::string::StrSliceExecFns;

verus! {

broadcast use vstd::string::group_string_axioms;

/// A branch name as git prints it, without surrounding whitespace and
/// without leading `origin/` parts.
pub open spec fn spec_local_name(raw: Seq<char>) -> Seq<char> {
    strip_leading(trimmed(raw), "origin/"@)
}

pub fn local_branch_name(raw: &str) -> (r: String)
    ensures
        r@ == spec_local_name(raw@),
{
    trim_start_all(trim_ws(raw), "origin/").to_owned()
}

/// The characters of `s` before its first line feed.
pub open spec fn before_line_feed(s: Seq<char>) -> Seq<char>
    decreases s.len(),
{
    if s.len() == 0 || s[0] == '\n' {
        seq![]
    } else {
        seq![s[0]] + before_line_feed(s.drop_first())
    }
}

/// The first line of `s`, without a carriage return that ends it.
pub open spec fn spec_first_line(s: Seq<char>) -> Seq<char> {
    let l = before_line_feed(s);
    if l.len() > 0 && l.last() == '\r' {
        l.drop_last()
    } else {
        l
    }
}

pub fn first_line(s: &str) -> (r: &str)
    ensures
        r@ == spec_first_line(s@),
{
    let n = s.unicode_len();
    let mut i: usize = 0;
    assert(s@.subrange(0, n as int) =~= s@);
    assert(s@.subrange(0, 0) + before_line_feed(s@) =~= before_line_feed(s@));
    while i < n && s.get_char(i) != '\n'
        invariant
            n == s@.len(),
            i <= n,
            before_line_feed(s@) == s@.subrange(0, i as int) + before_line_feed(s@.subrange(i as int, n as int)),
        decreases n - i,
    {
        let ghost rest = s@.subrange(i as int, n as int);
        assert(rest.drop_first() =~= s@.subrange(i + 1, n as int));
        assert(s@.subrange(0, i + 1) =~= s@.subrange(0, i as int).push(s@[i as int]));
        assert(s@.subrange(0, i as int) + before_line_feed(rest) =~= s@.subrange(0, i + 1) + before_line_feed(
            s@.subrange(i + 1, n as int),
        ));
        i += 1;
    }
    proof {
        assert(s@.subrange(0, n as int) =~= s@);
        assert(before_line_feed(s@.subrange(i as int, n as int)) =~= Seq::<char>::empty());
        assert(before_line_feed(s@) =~= s@.subrange(0, i as int));
    }
    if i > 0 && s.get_char(i - 1) == '\r' {
        s.substring_char(0, i - 1)
    } else {
        s.substring_char(0, i)
    }
}

/// The base branch of the first open pull request in a listing printed as
/// a JSON array on its first line; `None` for an empty listing.
pub open spec fn spec_pr_base(listing: Seq<char>) -> Option<Seq<char>> {
    if trimmed(listing).len() == 0 || listing == "[]"@ {
        None
    } else {
        match json_document(spec_first_line(listing)) {
            Some(doc) => match json_elements(doc) {
                Some(items) => if items.len() > 0 {
                    member_text(items[0], "baseRefName"@)
                } else {
                    None
                },
                None => None,
            },
            None => None,
        }
    }
}

pub fn pr_base_branch(listing: &str) -> (r: Option<String>)
    ensures
        match r {
            Some(b) => spec_pr_base(listing@) == Some(b@),
            None => spec_pr_base(listing@) is None,
        },
{
    if trim_ws(listing).unicode_len() == 0 || same_text(listing, "[]") {
        return None;
    }
    match parse_json(first_line(listing)) {
        Some(doc) => match elements(&doc) {
            Some(items) => if items.len() > 0 {
                member_string(&items[0], "baseRefName")
            } else {
                None
            },
            None => None,
        },
        None => None,
    }
}

/// The branch a change is compared against: the open pull request's base;
/// else the branch checked out before, when git names one; else `fallback`.
pub open spec fn spec_diff_base(
    pr_base: Option<Seq<char>>,
    previous: Option<Seq<char>>,
    fallback: Seq<char>,
) -> Seq<char> {
    match pr_base {
        Some(b) => b,
        None => match previous {
            Some(p) => if spec_local_name(p).len() > 0 {
                spec_local_name(p)
            } else {
                fallback
            },
            None => fallback,
        },
    }
}

pub open spec fn opt_str(s: Option<&str>) -> Option<Seq<char>> {
    match s {
        Some(t) => Some(t@),
        None => None,
    }
}

pub open spec fn opt_string(s: Option<String>) -> Option<Seq<char>> {
    match s {
        Some(t) => Some(t@),
        None => None,
    }
}

/// Chooses the diff base from the pull-request base (if any), what
/// `rev-parse --abbrev-ref <branch>@{-1}` printed (when it succeeded) and
/// the fallback parent branch.
pub fn choose_diff_base(pr_base: Option<String>, previous: Option<&str>, fallback: &str) -> (r: String)
    ensures
        r@ == spec_diff_base(opt_string(pr_base), opt_str(previous), fallback@),
{
    match pr_base {
        Some(b) => b,
        None => match previous {
            Some(p) => {
                let local = local_branch_name(p);
                if local.as_str().unicode_len() > 0 {
                    local
                } else {
                    fallback.to_owned()
                }
            },
            None => fallback.to_owned(),
        },
    }
}

/// A local branch considered as the parent of another.
pub struct AncestorCandidate {
    pub name: String,
    /// Whether it is an ancestor of the child.
    pub is_ancestor: bool,
    /// How many commits the child is ahead of it.
    pub distance: u64,
}

pub open spec fn is_eligible(cands: Seq<AncestorCandidate>, child: Seq<char>, i: int) -> bool {
    0 <= i < cands.len() && cands[i].is_ancestor && cands[i].name@ != child
}

/// The nearest ancestor: least distance, the first listed among equals.
pub open spec fn is_nearest(cands: Seq<AncestorCandidate>, child: Seq<char>, c: Option<usize>) -> bool {
    match c {
        None => forall|j: int| !is_eligible(cands, child, j),
        Some(i) => {
            &&& is_eligible(cands, child, i as int)
            &&& forall|j: int| #[trigger] is_eligible(cands, child, j) ==> cands[i as int].distance <= cands[j].distance
            &&& forall|j: int| 0 <= j < i && #[trigger] is_eligible(cands, child, j) ==> cands[i as int].distance < cands[j].distance
        },
    }
}

pub fn nearest_ancestor(cands: &Vec<AncestorCandidate>, child: &str) -> (r: Option<usize>)
    ensures
        is_nearest(cands@, child@, r),
{
    let mut best: Option<usize> = None;
    let mut i: usize = 0;
    while i < cands.len()
        invariant
            i <= cands.len(),
            match best {
                None => forall|j: int| 0 <= j < i ==> !is_eligible(cands@, child@, j),
                Some(b) => {
                    &&& b < i
                    &&& is_eligible(cands@, child@, b as int)
                    &&& forall|j: int| 0 <= j < i && #[trigger] is_eligible(cands@, child@, j) ==> cands@[b as int].distance <= cands@[j].distance
                    &&& forall|j: int| 0 <= j < b && #[trigger] is_eligible(cands@, child@, j) ==> cands@[b as int].distance < cands@[j].distance
                },
            },
        decreases cands.len() - i,
    {
        let c = &cands[i];
        if c.is_ancestor && !same_text(c.name.as_str(), child) {
            let better = match best {
                None => true,
                Some(b) => c.distance < cands[b].distance,
            };
            if better {
                best = Some(i);
            }
        }
        i += 1;
    }
    best
}

/// The branch `child` was forked from: `main` itself for `main`; else its
/// upstream, unless that is `main` or empty; else the nearest local
/// ancestor; else `main`.
pub open spec fn spec_parent_branch(
    main: Seq<char>,
    child: Seq<char>,
    upstream: Option<Seq<char>>,
    cands: Seq<AncestorCandidate>,
    nearest: Option<usize>,
) -> Seq<char> {
    if child == main {
        main
    } else if upstream is Some && spec_local_name(upstream.unwrap()).len() > 0 && spec_local_name(
        upstream.unwrap(),
    ) != main {
        spec_local_name(upstream.unwrap())
    } else {
        match nearest {
            Some(i) => cands[i as int].name@,
            None => main,
        }
    }
}

/// Chooses the parent of `child`, given what `rev-parse --abbrev-ref
/// <child>@{upstream}` printed (when it succeeded) and the local branches.
pub fn choose_parent_branch(
    main: &str,
    child: &str,
    upstream: Option<&str>,
    cands: &Vec<AncestorCandidate>,
) -> (r: String)
    ensures
        exists|c: Option<usize>|
            is_nearest(cands@, child@, c) && r@ == spec_parent_branch(main@, child@, opt_str(upstream), cands@, c),
{
    let c = nearest_ancestor(cands, child);
    if same_text(child, main) {
        return main.to_owned();
    }
    if let Some(u) = upstream {
        let up = local_branch_name(u);
        if up.as_str().unicode_len() > 0 && !same_text(up.as_str(), main) {
            return up;
        }
    }
    match c {
        Some(i) => cands[i].name.clone(),
        None => main.to_owned(),
    }
}

/// The first position from `i` on that holds `c`, or the end of `s`.
pub open spec fn find_from(s: Seq<char>, c: char, i: int) -> int
    decreases s.len() - i,
{
    if 0 <= i < s.len() && s[i] != c {
        find_from(s, c, i + 1)
    } else {
        i
    }
}

fn find_char(s: &str, n: usize, c: char, i: usize) -> (r: usize)
    requires
        n == s@.len(),
        i <= n,
    ensures
        r as int == find_from(s@, c, i as int),
        i <= r <= n,
{
    let mut j = i;
    while j < n && s.get_char(j) != c
        invariant
            n == s@.len(),
            i <= j <= n,
            find_from(s@, c, j as int) == find_from(s@, c, i as int),
        decreases n - j,
    {
        j += 1;
    }
    j
}

/// A line of `git branch -vv`, read: the branch name, and the remote branch
/// it tracks when the line shows one in brackets.
pub open spec fn spec_branch_line(raw: Seq<char>) -> Option<(Seq<char>, Option<Seq<char>>)> {
    let line = trimmed(raw);
    let e1 = skip_from(line, 0, false);
    let s2 = skip_from(line, e1, true);
    let e2 = skip_from(line, s2, false);
    let s3 = skip_from(line, e2, true);
    let first = line.subrange(0, e1);
    let second = line.subrange(s2, e2);
    let name = if first == "*"@ {
        second
    } else {
        first
    };
    let open = find_from(line, '[', 0);
    let close = find_from(line, ']', 0);
    let inside = line.subrange(open + 1, close);
    let remote = if open < close && close < line.len() {
        Some(trimmed(inside.subrange(0, find_from(inside, ':', 0))))
    } else {
        None
    };
    if s3 >= line.len() || name == "*"@ {
        None
    } else {
        Some((name, remote))
    }
}

pub open spec fn branch_line_view(r: Option<(String, Option<String>)>) -> Option<(Seq<char>, Option<Seq<char>>)> {
    match r {
        Some((n, t)) => Some((n@, opt_string(t))),
        None => None,
    }
}

/// Reads one line of `git branch -vv`; lines with fewer than three words
/// are passed over.
pub fn parse_branch_line(raw: &str) -> (r: Option<(String, Option<String>)>)
    ensures
        branch_line_view(r) == spec_branch_line(raw@),
{
    let line = trim_ws(raw);
    let n = line.unicode_len();
    let e1 = skip_word_or_blank(line, n, 0, false);
    let s2 = skip_word_or_blank(line, n, e1, true);
    let e2 = skip_word_or_blank(line, n, s2, false);
    let s3 = skip_word_or_blank(line, n, e2, true);
    let first = line.substring_char(0, e1);
    let second = line.substring_char(s2, e2);
    let name = if same_text(first, "*") {
        second
    } else {
        first
    };
    if s3 >= n || same_text(name, "*") {
        return None;
    }
    let open = find_char(line, n, '[', 0);
    let close = find_char(line, n, ']', 0);
    let remote = if open < close && close < n {
        let inside = line.substring_char(open + 1, close);
        let k = find_char(inside, inside.unicode_len(), ':', 0);
        Some(trim_ws(inside.substring_char(0, k)).to_owned())
    } else {
        None
    };
    Some((name.to_owned(), remote))
}

/// Message of the stash entry this tool leaves behind.
pub const AUTOSTASH_MESSAGE: &'static str = "On gh-autopr-index-autocommit: gh-autopr-index-autostash";

/// A line `<ref>:<message>` of `git stash list --format=%gD:%gs` whose
/// message is `message`.
pub open spec fn is_stash_of(line: Seq<char>, message: Seq<char>) -> bool {
    let k = find_from(line, ':', 0);
    k < line.len() && line.subrange(k + 1, line.len() as int) == message
}

pub open spec fn stash_ref(line: Seq<char>) -> Seq<char> {
    line.subrange(0, find_from(line, ':', 0))
}

/// The reference of the first stash entry in `list` with `message`.
pub open spec fn spec_find_stash(list: Seq<char>, message: Seq<char>) -> Option<Seq<char>> {
    let lines = list_entries(list, '\n');
    if exists|i: int| 0 <= i < lines.len() && is_stash_of(#[trigger] lines[i], message) {
        let i = choose|i: int|
            0 <= i < lines.len() && is_stash_of(#[trigger] lines[i], message) && forall|j: int|
                0 <= j < i ==> !is_stash_of(#[trigger] lines[j], message);
        Some(stash_ref(lines[i]))
    } else {
        None
    }
}

pub fn find_stash(list: &str, message: &str) -> (r: Option<String>)
    ensures
        opt_string(r) == spec_find_stash(list@, message@),
{
    let lines = split_entries(list, '\n');
    let ghost ls = lines.deep_view();
    let mut i: usize = 0;
    while i < lines.len()
        invariant
            ls == lines.deep_view(),
            ls == list_entries(list@, '\n'),
            i <= lines.len(),
            forall|j: int| 0 <= j < i ==> !is_stash_of(#[trigger] ls[j], message@),
        decreases lines.len() - i,
    {
        let line = lines[i].as_str();
        assert(line@ == ls[i as int]);
        let n = line.unicode_len();
        let k = find_char(line, n, ':', 0);
        if k < n && same_text(line.substring_char(k + 1, n), message) {
            let r = line.substring_char(0, k).to_owned();
            proof {
                let w = choose|w: int|
                    0 <= w < ls.len() && is_stash_of(#[trigger] ls[w], message@) && forall|j: int|
                        0 <= j < w ==> !is_stash_of(#[trigger] ls[j], message@);
                assert(is_stash_of(ls[i as int], message@));
                if w < i {
                    assert(!is_stash_of(ls[w], message@));
                }
                if w > i {
                    assert(!is_stash_of(ls[i as int], message@));
                }
            }
            return Some(r);
        }
        i += 1;
    }
    None
}

} // verus!
