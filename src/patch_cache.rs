//! Recently saved patches of the dirty state, kept as files named
//! `staged-<unix seconds>.patch` and `unstaged-<unix seconds>.patch` in a
//! scratch directory inside the repository's metadata directory.
use vstd::prelude::*;
use crate::text::{all_digits, decimal, digits_value, lemma_decimal_round_trip, matches_at, parse_decimal, push_decimal};
use vstd::string::{StrSliceExecFns, StringExecFns};

verus! {

/// Name of the scratch directory, inside the metadata directory.
pub const PATCH_DIR_NAME: &'static str = "gh-autopr-patches";

/// How old, in seconds, a saved patch may be and still be reused.
pub const REUSE_WINDOW_SECS: u64 = 10;

/// Which half of the dirty state a patch holds.
#[derive(Clone, Copy, Debug, PartialEq, Eq, Structural)]
pub enum PatchKind {
    /// The index against `HEAD`.
    Staged,
    /// The working tree against the index.
    Unstaged,
}

/// What the name of a saved patch file tells.
#[derive(Clone, Copy, Debug, PartialEq, Eq, Structural)]
pub struct PatchFileName {
    pub kind: PatchKind,
    pub timestamp: u64,
}

pub open spec fn kind_prefix(kind: PatchKind) -> Seq<char> {
    match kind {
        PatchKind::Staged => "staged-"@,
        PatchKind::Unstaged => "unstaged-"@,
    }
}

/// The timestamp written between `prefix` and `.patch` in `name`, if `name`
/// has that shape.
pub open spec fn stamp_after(name: Seq<char>, prefix: Seq<char>) -> Option<nat> {
    let tail = ".patch"@;
    let middle = name.subrange(prefix.len() as int, name.len() - tail.len());
    if prefix.len() + tail.len() < name.len() && name.subrange(0, prefix.len() as int) == prefix
        && name.subrange(name.len() - tail.len(), name.len() as int) == tail && all_digits(middle) {
        Some(digits_value(middle))
    } else {
        None
    }
}

/// The kind and timestamp encoded by a file name; `None` for any other name,
/// and for a timestamp beyond 64 bits.
pub open spec fn spec_parse_patch_name(name: Seq<char>) -> Option<PatchFileName> {
    match stamp_after(name, kind_prefix(PatchKind::Staged)) {
        Some(v) => if v <= u64::MAX {
            Some(PatchFileName { kind: PatchKind::Staged, timestamp: v as u64 })
        } else {
            None
        },
        None => match stamp_after(name, kind_prefix(PatchKind::Unstaged)) {
            Some(v) => if v <= u64::MAX {
                Some(PatchFileName { kind: PatchKind::Unstaged, timestamp: v as u64 })
            } else {
                None
            },
            None => None,
        },
    }
}

/// The file name under which a patch of `kind` taken at `timestamp` is saved.
pub open spec fn spec_patch_file_name(kind: PatchKind, timestamp: u64) -> Seq<char> {
    kind_prefix(kind) + decimal(timestamp as nat) + ".patch"@
}

fn stamp_with_prefix(name: &str, prefix: &str) -> (r: Option<u64>)
    ensures
        r == (match stamp_after(name@, prefix@) {
            Some(v) => if v <= u64::MAX {
                Some(v as u64)
            } else {
                None
            },
            None => None,
        }),
{
    let tail = ".patch";
    let n = name.unicode_len();
    let p = prefix.unicode_len();
    let t = tail.unicode_len();
    if p >= n || t >= n - p || !matches_at(name, prefix, 0) || !matches_at(name, tail, n - t) {
        return None;
    }
    parse_decimal(name, p, n - t)
}

/// Reads the kind and timestamp out of a saved patch's file name.
/// Names of any other shape give `None`.
pub fn parse_patch_file_name(name: &str) -> (r: Option<PatchFileName>)
    ensures
        r == spec_parse_patch_name(name@),
{
    match stamp_with_prefix(name, "staged-") {
        Some(ts) => Some(PatchFileName { kind: PatchKind::Staged, timestamp: ts }),
        None => {
            proof {
                reveal_strlit("staged-");
                reveal_strlit("unstaged-");
                if stamp_after(name@, kind_prefix(PatchKind::Staged)).is_some() {
                    assert(name@.subrange(0, 7)[0] == 's');
                    assert(stamp_after(name@, kind_prefix(PatchKind::Unstaged)).is_none()) by {
                        if name@.subrange(0, 9) == "unstaged-"@ {
                            assert(name@.subrange(0, 9)[0] == 'u');
                        }
                    }
                }
            }
            match stamp_with_prefix(name, "unstaged-") {
                Some(ts) => Some(PatchFileName { kind: PatchKind::Unstaged, timestamp: ts }),
                None => None,
            }
        },
    }
}

/// The name under which a patch of `kind` taken at `timestamp` is saved.
pub fn patch_file_name(kind: PatchKind, timestamp: u64) -> (r: String)
    ensures
        r@ == spec_patch_file_name(kind, timestamp),
{
    let mut r = match kind {
        PatchKind::Staged => String::from_str("staged-"),
        PatchKind::Unstaged => String::from_str("unstaged-"),
    };
    push_decimal(&mut r, timestamp);
    r.append(".patch");
    r
}

/// A saved patch's name reads back as the kind and timestamp it was written from.
pub proof fn lemma_patch_name_round_trip(kind: PatchKind, timestamp: u64)
    ensures
        spec_parse_patch_name(spec_patch_file_name(kind, timestamp)) == Some(
            PatchFileName { kind, timestamp },
        ),
{
    reveal_strlit("staged-");
    reveal_strlit("unstaged-");
    reveal_strlit(".patch");
    lemma_decimal_round_trip(timestamp as nat);
    let d = decimal(timestamp as nat);
    let name = spec_patch_file_name(kind, timestamp);
    let pre = kind_prefix(kind);
    let tail = ".patch"@;
    assert(name.subrange(0, pre.len() as int) =~= pre);
    assert(name.subrange(name.len() - tail.len(), name.len() as int) =~= tail);
    assert(name.subrange(pre.len() as int, name.len() - tail.len()) =~= d);
    assert(stamp_after(name, pre) == Some(timestamp as nat));
    if kind == PatchKind::Unstaged {
        assert(name[0] == 'u');
        if name.subrange(0, 7) == "staged-"@ {
            assert(name.subrange(0, 7)[0] == 's');
        }
        assert(stamp_after(name, kind_prefix(PatchKind::Staged)).is_none());
    }
}

/// A patch taken at `timestamp` may still be used at time `now`: it is not
/// from the future and at most the reuse window old.
pub open spec fn spec_is_fresh(now: u64, timestamp: u64) -> bool {
    timestamp <= now && now - timestamp <= REUSE_WINDOW_SECS
}

pub fn is_fresh(now: u64, timestamp: u64) -> (r: bool)
    ensures
        r == spec_is_fresh(now, timestamp),
{
    timestamp <= now && now - timestamp <= REUSE_WINDOW_SECS
}

/// The freshness window is closed: a patch exactly the window old is reused,
/// one a second older is not.
pub proof fn lemma_freshness_boundary(now: u64)
    requires
        now >= REUSE_WINDOW_SECS + 1,
    ensures
        spec_is_fresh(now, (now - REUSE_WINDOW_SECS) as u64),
        !spec_is_fresh(now, (now - REUSE_WINDOW_SECS - 1) as u64),
{
}

/// Entry `i` of `names` is a fresh saved patch of `kind`.
pub open spec fn fresh_of_kind(now: u64, names: Seq<Seq<char>>, kind: PatchKind, i: int) -> bool {
    &&& 0 <= i < names.len()
    &&& spec_parse_patch_name(names[i]) matches Some(p)
    &&& p.kind == kind
    &&& spec_is_fresh(now, p.timestamp)
}

pub open spec fn stamp_of(names: Seq<Seq<char>>, i: int) -> u64 {
    spec_parse_patch_name(names[i]).unwrap().timestamp
}

/// The entry to reuse for `kind`: the first of the newest fresh ones, or
/// `None` when no entry is a fresh patch of that kind.
pub open spec fn is_choice(now: u64, names: Seq<Seq<char>>, kind: PatchKind, c: Option<usize>) -> bool {
    match c {
        None => forall|j: int| !fresh_of_kind(now, names, kind, j),
        Some(i) => {
            &&& fresh_of_kind(now, names, kind, i as int)
            &&& forall|j: int| #[trigger]
                fresh_of_kind(now, names, kind, j) ==> stamp_of(names, j) <= stamp_of(names, i as int)
            &&& forall|j: int|
                0 <= j < i && #[trigger] fresh_of_kind(now, names, kind, j) ==> stamp_of(names, j) < stamp_of(
                    names,
                    i as int,
                )
        },
    }
}

/// A patch saved under its name at `timestamp` is the one reused for its
/// kind while it is fresh, and is passed over once it is not.
pub proof fn lemma_saved_patch_reused(kind: PatchKind, timestamp: u64, now: u64)
    ensures
        spec_is_fresh(now, timestamp) ==> is_choice(now, seq![spec_patch_file_name(kind, timestamp)], kind, Some(0)),
        !spec_is_fresh(now, timestamp) ==> is_choice(now, seq![spec_patch_file_name(kind, timestamp)], kind, None),
{
    lemma_patch_name_round_trip(kind, timestamp);
    let names = seq![spec_patch_file_name(kind, timestamp)];
    assert(names[0] == spec_patch_file_name(kind, timestamp));
    assert forall|j: int| #[trigger] fresh_of_kind(now, names, kind, j) implies j == 0 by {}
}

/// Which files of the scratch directory to read instead of capturing anew.
#[derive(Clone, Copy, Debug, PartialEq, Eq, Structural)]
pub struct ReusePlan {
    pub staged: Option<usize>,
    pub unstaged: Option<usize>,
}

fn choose_fresh(now: u64, names: &Vec<String>, kind: PatchKind) -> (r: Option<usize>)
    ensures
        is_choice(now, names.deep_view(), kind, r),
{
    let ghost v = names.deep_view();
    let mut best: Option<usize> = None;
    let mut best_ts: u64 = 0;
    let mut i: usize = 0;
    while i < names.len()
        invariant
            v == names.deep_view(),
            i <= names.len(),
            match best {
                None => forall|j: int| 0 <= j < i ==> !fresh_of_kind(now, v, kind, j),
                Some(b) => {
                    &&& b < i
                    &&& fresh_of_kind(now, v, kind, b as int)
                    &&& stamp_of(v, b as int) == best_ts
                    &&& forall|j: int|
                        0 <= j < i && #[trigger] fresh_of_kind(now, v, kind, j) ==> stamp_of(v, j) <= best_ts
                    &&& forall|j: int|
                        0 <= j < b && #[trigger] fresh_of_kind(now, v, kind, j) ==> stamp_of(v, j) < best_ts
                },
            },
        decreases names.len() - i,
    {
        assert(names[i as int]@ == v[i as int]);
        match parse_patch_file_name(names[i].as_str()) {
            Some(p) => {
                if p.kind == kind && is_fresh(now, p.timestamp) {
                    let better = match best {
                        None => true,
                        Some(_) => p.timestamp > best_ts,
                    };
                    if better {
                        best = Some(i);
                        best_ts = p.timestamp;
                    }
                }
            },
            None => {},
        }
        i += 1;
    }
    best
}

/// Picks, for each kind, the saved patch to reuse among the file names of the
/// scratch directory at time `now`.
pub fn select_reusable(now: u64, names: &Vec<String>) -> (r: ReusePlan)
    ensures
        is_choice(now, names.deep_view(), PatchKind::Staged, r.staged),
        is_choice(now, names.deep_view(), PatchKind::Unstaged, r.unstaged),
{
    ReusePlan {
        staged: choose_fresh(now, names, PatchKind::Staged),
        unstaged: choose_fresh(now, names, PatchKind::Unstaged),
    }
}

/// Seconds in a day.
pub const SECS_PER_DAY: u64 = 86400;

/// Entry `i` of `names` is a saved patch older than `days_old` days at `now`.
pub open spec fn is_stale(now: u64, days_old: u64, names: Seq<Seq<char>>, i: int) -> bool {
    &&& 0 <= i < names.len()
    &&& spec_parse_patch_name(names[i]) matches Some(p)
    &&& p.timestamp + days_old * SECS_PER_DAY < now
}

/// The entries of `names`, in order, that are saved patches older than
/// `days_old` days at time `now`; other names are left alone.
pub fn stale_patch_files(now: u64, days_old: u64, names: &Vec<String>) -> (r: Vec<usize>)
    ensures
        forall|k: int| 0 <= k < r@.len() ==> is_stale(now, days_old, names.deep_view(), #[trigger] r@[k] as int),
        forall|i: int| is_stale(now, days_old, names.deep_view(), i) ==> r@.contains(i as usize),
        forall|a: int, b: int| 0 <= a < b < r@.len() ==> r@[a] < r@[b],
{
    let ghost v = names.deep_view();
    let mut r: Vec<usize> = Vec::new();
    let age = days_old.checked_mul(SECS_PER_DAY);
    let mut i: usize = 0;
    while i < names.len()
        invariant
            v == names.deep_view(),
            i <= names.len(),
            age == (if days_old * SECS_PER_DAY <= u64::MAX {
                Some((days_old * SECS_PER_DAY) as u64)
            } else {
                None::<u64>
            }),
            forall|k: int| 0 <= k < r@.len() ==> is_stale(now, days_old, v, #[trigger] r@[k] as int),
            forall|k: int| 0 <= k < r@.len() ==> #[trigger] r@[k] < i,
            forall|j: int| 0 <= j < i && is_stale(now, days_old, v, j) ==> r@.contains(j as usize),
            forall|a: int, b: int| 0 <= a < b < r@.len() ==> r@[a] < r@[b],
        decreases names.len() - i,
    {
        assert(names[i as int]@ == v[i as int]);
        let ghost before = r@;
        if let Some(p) = parse_patch_file_name(names[i].as_str()) {
            if let Some(a) = age {
                if p.timestamp < now && a < now - p.timestamp {
                    r.push(i);
                    assert(r@.last() == i);
                }
            }
        }
        assert forall|j: int| 0 <= j < i + 1 && is_stale(now, days_old, v, j) implies r@.contains(j as usize) by {
            if j < i {
                let k = choose|k: int| 0 <= k < before.len() && before[k] == j as usize;
                assert(r@[k] == j as usize);
            } else {
                assert(r@[r@.len() - 1] == i);
            }
        }
        i += 1;
    }
    r
}

} // verus!
