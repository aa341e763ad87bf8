//! Preparing the text generator's input and reading its reply.
use vstd::prelude::*;
use crate::json::{json_document, member_string, member_text, parse_json};
use crate::text::{is_valid_branch_name, is_valid_git_branch_name, matches_at, trim_ws, trimmed, truncate_utf8};
use vstd::string::{StrSliceExecFns, StringSliceAdditionalSpecFns};

verus! {

broadcast use vstd::string::group_string_axioms;

/// Largest number of bytes of the open-issues listing handed to the generator.
pub const MAX_ISSUES_LEN: usize = 16384;

/// `s` with every leading repetition of `p` removed.
pub open spec fn strip_leading(s: Seq<char>, p: Seq<char>) -> Seq<char>
    decreases s.len(),
{
    if p.len() > 0 && p.len() <= s.len() && s.subrange(0, p.len() as int) == p {
        strip_leading(s.subrange(p.len() as int, s.len() as int), p)
    } else {
        s
    }
}

/// `s` with every trailing repetition of `p` removed.
pub open spec fn strip_trailing(s: Seq<char>, p: Seq<char>) -> Seq<char>
    decreases s.len(),
{
    if p.len() > 0 && p.len() <= s.len() && s.subrange(s.len() - p.len(), s.len() as int) == p {
        strip_trailing(s.subrange(0, s.len() - p.len()), p)
    } else {
        s
    }
}

/// Removes every leading repetition of `p` from `s`.
pub fn trim_start_all<'a>(s: &'a str, p: &str) -> (r: &'a str)
    ensures
        r@ == strip_leading(s@, p@),
{
    let m = p.unicode_len();
    if m == 0 {
        return s;
    }
    let n = s.unicode_len();
    let mut start: usize = 0;
    assert(s@.subrange(0, n as int) =~= s@);
    while m <= n - start && matches_at(s, p, start)
        invariant
            n == s@.len(),
            m == p@.len(),
            m > 0,
            start <= n,
            strip_leading(s@.subrange(start as int, n as int), p@) == strip_leading(s@, p@),
        decreases n - start,
    {
        let ghost cur = s@.subrange(start as int, n as int);
        assert(cur.subrange(0, m as int) =~= s@.subrange(start as int, start + m));
        assert(cur.subrange(m as int, cur.len() as int) =~= s@.subrange(start + m, n as int));
        start = start + m;
    }
    let r = s.substring_char(start, n);
    proof {
        let cur = s@.subrange(start as int, n as int);
        if m <= cur.len() {
            assert(cur.subrange(0, m as int) =~= s@.subrange(start as int, start + m));
        }
    }
    r
}

/// Removes every trailing repetition of `p` from `s`.
pub fn trim_end_all<'a>(s: &'a str, p: &str) -> (r: &'a str)
    ensures
        r@ == strip_trailing(s@, p@),
{
    let m = p.unicode_len();
    if m == 0 {
        return s;
    }
    let mut end: usize = s.unicode_len();
    assert(s@.subrange(0, end as int) =~= s@);
    while end >= m && matches_at(s, p, end - m)
        invariant
            end <= s@.len(),
            m == p@.len(),
            m > 0,
            strip_trailing(s@.subrange(0, end as int), p@) == strip_trailing(s@, p@),
        decreases end,
    {
        let ghost cur = s@.subrange(0, end as int);
        assert(cur.subrange(end - m, end as int) =~= s@.subrange(end - m, end as int));
        assert(cur.subrange(0, end - m) =~= s@.subrange(0, end - m));
        end = end - m;
    }
    let r = s.substring_char(0, end);
    proof {
        let cur = s@.subrange(0, end as int);
        if m <= cur.len() {
            assert(cur.subrange(end - m, end as int) =~= s@.subrange(end - m, end as int));
        }
    }
    assert(s@.subrange(0, s@.len() as int) =~= s@);
    r
}

/// What is left of a reply once surrounding whitespace and a Markdown code
/// fence around it are taken off.
pub open spec fn spec_strip_code_fence(reply: Seq<char>) -> Seq<char> {
    strip_trailing(strip_leading(strip_leading(trimmed(reply), "```json"@), "```"@), "```"@)
}

/// Takes surrounding whitespace and a Markdown code fence off a reply.
pub fn strip_code_fence(reply: &str) -> (r: String)
    ensures
        r@ == spec_strip_code_fence(reply@),
{
    let t = trim_ws(reply);
    let a = trim_start_all(t, "```json");
    let b = trim_start_all(a, "```");
    let c = trim_end_all(b, "```");
    c.to_owned()
}

/// The open-issues listing cut to [`MAX_ISSUES_LEN`] bytes on a character
/// boundary.
pub fn clip_issues(issues: &str) -> (r: String)
    requires
        issues.spec_bytes().len() <= usize::MAX,
    ensures
        issues.spec_bytes().len() <= MAX_ISSUES_LEN ==> r@ == issues@,
        issues.spec_bytes().len() > MAX_ISSUES_LEN ==> crate::text::is_truncation_point(
            issues.spec_bytes(),
            MAX_ISSUES_LEN as int,
            vstd::utf8::encode_utf8(r@).len() as int,
        ) && vstd::utf8::encode_utf8(r@) == issues.spec_bytes().subrange(
            0,
            vstd::utf8::encode_utf8(r@).len() as int,
        ),
{
    truncate_utf8(issues, MAX_ISSUES_LEN)
}

/// Branch name used when the reply names none.
pub const DEFAULT_BRANCH_NAME: &'static str = "my-pr-branch";

/// Commit title used when the reply gives none.
pub const DEFAULT_COMMIT_TITLE: &'static str = "Generic commit title";

/// What the text generator proposes for the change.
pub struct Narrative {
    pub branch_name: String,
    pub commit_title: String,
    pub commit_details: Option<String>,
}

/// Why a reply could not be used.
#[derive(Debug, PartialEq, Eq)]
pub enum ReplyError {
    /// The reply, once unwrapped, is not a JSON document.
    NotJson,
    /// The proposed branch name is not one this tool will create.
    InvalidBranchName { name: String },
}

/// A [`Narrative`] as plain sequences.
pub struct NarrativeView {
    pub branch_name: Seq<char>,
    pub commit_title: Seq<char>,
    pub commit_details: Option<Seq<char>>,
}

/// Why a reply could not be used, as plain sequences.
pub enum ReplyErrorView {
    NotJson,
    InvalidBranchName { name: Seq<char> },
}

pub open spec fn opt_text(s: Option<String>) -> Option<Seq<char>> {
    match s {
        Some(t) => Some(t@),
        None => None,
    }
}

pub open spec fn reply_result_view(r: Result<Narrative, ReplyError>) -> Result<NarrativeView, ReplyErrorView> {
    match r {
        Ok(n) => Ok(
            NarrativeView {
                branch_name: n.branch_name@,
                commit_title: n.commit_title@,
                commit_details: opt_text(n.commit_details),
            },
        ),
        Err(ReplyError::NotJson) => Err(ReplyErrorView::NotJson),
        Err(ReplyError::InvalidBranchName { name }) => Err(ReplyErrorView::InvalidBranchName { name: name@ }),
    }
}

/// The narrative made of the fields a reply held: missing branch name and
/// title fall back to defaults, and the branch name must be valid.
pub open spec fn spec_narrative(
    branch: Option<Seq<char>>,
    title: Option<Seq<char>>,
    details: Option<Seq<char>>,
) -> Result<NarrativeView, ReplyErrorView> {
    let b = match branch {
        Some(b) => b,
        None => DEFAULT_BRANCH_NAME@,
    };
    let t = match title {
        Some(t) => t,
        None => DEFAULT_COMMIT_TITLE@,
    };
    if is_valid_branch_name(b) {
        Ok(NarrativeView { branch_name: b, commit_title: t, commit_details: details })
    } else {
        Err(ReplyErrorView::InvalidBranchName { name: b })
    }
}

/// Builds the narrative from the fields a reply held.
pub fn narrative_from_fields(
    branch: Option<String>,
    title: Option<String>,
    details: Option<String>,
) -> (r: Result<Narrative, ReplyError>)
    ensures
        reply_result_view(r) == spec_narrative(opt_text(branch), opt_text(title), opt_text(details)),
{
    let branch_name = match branch {
        Some(b) => b,
        None => DEFAULT_BRANCH_NAME.to_owned(),
    };
    let commit_title = match title {
        Some(t) => t,
        None => DEFAULT_COMMIT_TITLE.to_owned(),
    };
    if is_valid_git_branch_name(branch_name.as_str()) {
        Ok(Narrative { branch_name, commit_title, commit_details: details })
    } else {
        Err(ReplyError::InvalidBranchName { name: branch_name })
    }
}

/// What a reply means: the JSON object inside it, read for its
/// `branch_name`, `commit_title` and `commit_details` strings.
pub open spec fn spec_interpret_reply(reply: Seq<char>) -> Result<NarrativeView, ReplyErrorView> {
    match json_document(spec_strip_code_fence(reply)) {
        None => Err(ReplyErrorView::NotJson),
        Some(doc) => spec_narrative(
            member_text(doc, "branch_name"@),
            member_text(doc, "commit_title"@),
            member_text(doc, "commit_details"@),
        ),
    }
}

/// Reads the generator's reply.
pub fn interpret_reply(reply: &str) -> (r: Result<Narrative, ReplyError>)
    ensures
        reply_result_view(r) == spec_interpret_reply(reply@),
{
    let text = strip_code_fence(reply);
    match parse_json(text.as_str()) {
        None => Err(ReplyError::NotJson),
        Some(doc) => {
            let branch = member_string(&doc, "branch_name");
            let title = member_string(&doc, "commit_title");
            let details = member_string(&doc, "commit_details");
            narrative_from_fields(branch, title, details)
        },
    }
}

} // verus!
