//! Text helpers: byte-bounded truncation and branch-name validation.
use vstd::prelude::*;
use vstd::string::{StrSliceExecFns, StringExecFns, StringSliceAdditionalSpecFns};
use vstd::utf8::{encode_utf8, is_char_boundary};

verus! {

broadcast use {
    vstd::string::group_string_axioms,
    vstd::utf8::encode_utf8_valid_utf8,
    vstd::utf8::is_char_boundary_start_end_of_seq,
};

/// `k` is the largest character boundary of `bytes` that is at most `max`.
pub open spec fn is_truncation_point(bytes: Seq<u8>, max: int, k: int) -> bool {
    &&& 0 <= k <= max
    &&& k <= bytes.len()
    &&& is_char_boundary(bytes, k)
    &&& forall|j: int| k < j <= max ==> !is_char_boundary(bytes, j)
}

/// Cuts `s` to at most `max_bytes` bytes of UTF-8 without splitting a character.
pub fn truncate_utf8(s: &str, max_bytes: usize) -> (r: String)
    requires
        s.spec_bytes().len() <= usize::MAX,
    ensures
        s.spec_bytes().len() <= max_bytes ==> r@ == s@,
        s.spec_bytes().len() > max_bytes ==> is_truncation_point(
            s.spec_bytes(),
            max_bytes as int,
            encode_utf8(r@).len() as int,
        ) && encode_utf8(r@) == s.spec_bytes().subrange(0, encode_utf8(r@).len() as int),
{
    if s.len() <= max_bytes {
        return s.to_owned();
    }
    let mut end: usize = max_bytes;
    while !s.is_char_boundary(end)
        invariant
            end <= max_bytes,
            max_bytes < s.spec_bytes().len(),
            forall|j: int| end < j <= max_bytes ==> !is_char_boundary(s.spec_bytes(), j),
        decreases end,
    {
        end -= 1;
    }
    let (head, _tail) = s.split_at(end);
    let r = head.to_owned();
    assert(encode_utf8(r@) == head.spec_bytes());
    r
}

/// Characters a generated branch name may hold.
pub open spec fn is_branch_char(c: char) -> bool {
    ||| 'a' <= c <= 'z'
    ||| 'A' <= c <= 'Z'
    ||| '0' <= c <= '9'
    ||| c == '-'
    ||| c == '_'
    ||| c == '/'
    ||| c == '.'
}

/// A conservative subset of the names git accepts for a branch.
pub open spec fn is_valid_branch_name(n: Seq<char>) -> bool {
    &&& n.len() > 0
    &&& n != seq!['-']
    &&& n[0] != '.'
    &&& n.last() != '.'
    &&& forall|i: int| 0 <= i < n.len() - 1 ==> !(#[trigger] n[i] == '.' && n[i + 1] == '.')
    &&& forall|i: int| 0 <= i < n.len() ==> is_branch_char(#[trigger] n[i])
}

/// Checks a branch name proposed by the text generator before it is used.
pub fn is_valid_git_branch_name(name: &str) -> (r: bool)
    ensures
        r == is_valid_branch_name(name@),
{
    let n = name.unicode_len();
    if n == 0 {
        return false;
    }
    if n == 1 && name.get_char(0) == '-' {
        assert(name@ =~= seq!['-']);
        return false;
    }
    if n != 1 {
        assert(name@ != seq!['-']) by {
            assert(seq!['-'].len() == 1);
        }
    }
    if name.get_char(0) == '.' || name.get_char(n - 1) == '.' {
        return false;
    }
    let mut i: usize = 0;
    while i < n
        invariant
            n == name@.len(),
            i <= n,
            forall|k: int| 0 <= k < i ==> is_branch_char(#[trigger] name@[k]),
            forall|k: int| 0 <= k < i && k + 1 < n ==> !(#[trigger] name@[k] == '.' && name@[k + 1] == '.'),
        decreases n - i,
    {
        let c = name.get_char(i);
        if !(('a' <= c && c <= 'z') || ('A' <= c && c <= 'Z') || ('0' <= c && c <= '9') || c == '-'
            || c == '_' || c == '/' || c == '.') {
            return false;
        }
        if c == '.' && i + 1 < n && name.get_char(i + 1) == '.' {
            return false;
        }
        i += 1;
    }
    true
}

pub open spec fn is_digit(c: char) -> bool {
    '0' <= c <= '9'
}

pub open spec fn digit_value(c: char) -> nat {
    ((c as u32) - ('0' as u32)) as nat
}

/// The number written by a sequence of decimal digits.
pub open spec fn digits_value(s: Seq<char>) -> nat
    decreases s.len(),
{
    if s.len() == 0 {
        0
    } else {
        digits_value(s.drop_last()) * 10 + digit_value(s.last())
    }
}

pub open spec fn all_digits(s: Seq<char>) -> bool {
    forall|i: int| 0 <= i < s.len() ==> is_digit(#[trigger] s[i])
}

/// Whether `p` occurs in `s` starting at character `at`.
pub fn matches_at(s: &str, p: &str, at: usize) -> (r: bool)
    ensures
        r == (at + p@.len() <= s@.len() && s@.subrange(at as int, at + p@.len()) == p@),
{
    let n = s.unicode_len();
    let m = p.unicode_len();
    if at > n || m > n - at {
        return false;
    }
    let mut i: usize = 0;
    while i < m
        invariant
            n == s@.len(),
            m == p@.len(),
            at + m <= n,
            i <= m,
            forall|k: int| 0 <= k < i ==> s@[at + k] == p@[k],
        decreases m - i,
    {
        if s.get_char(at + i) != p.get_char(i) {
            assert(s@.subrange(at as int, at + m)[i as int] != p@[i as int]);
            return false;
        }
        i += 1;
    }
    assert(s@.subrange(at as int, at + m) =~= p@);
    true
}

/// Reads the decimal number held by characters `from..to` of `s`: `None` when
/// one of them is not a digit or the value does not fit in 64 bits.
pub fn parse_decimal(s: &str, from: usize, to: usize) -> (r: Option<u64>)
    requires
        from <= to <= s@.len(),
    ensures
        r == (if all_digits(s@.subrange(from as int, to as int)) && digits_value(
            s@.subrange(from as int, to as int),
        ) <= u64::MAX {
            Some(digits_value(s@.subrange(from as int, to as int)) as u64)
        } else {
            None
        }),
{
    let ghost full = s@.subrange(from as int, to as int);
    let mut value: u64 = 0;
    let mut overflow = false;
    let mut i: usize = from;
    while i < to
        invariant
            from <= i <= to <= s@.len(),
            full == s@.subrange(from as int, to as int),
            all_digits(s@.subrange(from as int, i as int)),
            !overflow ==> value == digits_value(s@.subrange(from as int, i as int)),
            overflow ==> digits_value(s@.subrange(from as int, i as int)) > u64::MAX,
        decreases to - i,
    {
        let c = s.get_char(i);
        let ghost prev = s@.subrange(from as int, i as int);
        let ghost next = s@.subrange(from as int, i + 1);
        assert(next.drop_last() =~= prev);
        assert(next.last() == c);
        if !('0' <= c && c <= '9') {
            assert(!all_digits(full)) by {
                assert(full[i - from] == c);
            }
            return None;
        }
        let d = (c as u32 - '0' as u32) as u64;
        assert(d as nat == digit_value(c));
        if !overflow {
            if value > (u64::MAX - d) / 10 {
                overflow = true;
            } else {
                value = value * 10 + d;
            }
        }
        assert(all_digits(next)) by {
            assert forall|k: int| 0 <= k < next.len() implies is_digit(#[trigger] next[k]) by {
                if k < prev.len() {
                    assert(next[k] == prev[k]);
                }
            }
        }
        i += 1;
    }
    assert(s@.subrange(from as int, i as int) =~= full);
    if overflow {
        None
    } else {
        Some(value)
    }
}

pub open spec fn digit_char(d: nat) -> char {
    seq!['0', '1', '2', '3', '4', '5', '6', '7', '8', '9'][d as int]
}

/// The decimal writing of `n`, without leading zeros.
pub open spec fn decimal(n: nat) -> Seq<char>
    decreases n,
{
    if n < 10 {
        seq![digit_char(n)]
    } else {
        decimal(n / 10).push(digit_char(n % 10))
    }
}

/// Reading back the decimal writing of a number gives the number.
pub proof fn lemma_decimal_round_trip(n: nat)
    ensures
        decimal(n).len() >= 1,
        all_digits(decimal(n)),
        digits_value(decimal(n)) == n,
    decreases n,
{
    let t = seq!['0', '1', '2', '3', '4', '5', '6', '7', '8', '9'];
    assert(is_digit(t[0]) && is_digit(t[1]) && is_digit(t[2]) && is_digit(t[3]) && is_digit(t[4]));
    assert(is_digit(t[5]) && is_digit(t[6]) && is_digit(t[7]) && is_digit(t[8]) && is_digit(t[9]));
    assert(digit_value(t[0]) == 0 && digit_value(t[1]) == 1 && digit_value(t[2]) == 2);
    assert(digit_value(t[3]) == 3 && digit_value(t[4]) == 4 && digit_value(t[5]) == 5);
    assert(digit_value(t[6]) == 6 && digit_value(t[7]) == 7 && digit_value(t[8]) == 8);
    assert(digit_value(t[9]) == 9);
    if n < 10 {
        let s = decimal(n);
        assert(s.drop_last() =~= Seq::<char>::empty());
        assert(digits_value(s.drop_last()) == 0);
    } else {
        lemma_decimal_round_trip(n / 10);
        let s = decimal(n);
        assert(s.drop_last() =~= decimal(n / 10));
        assert(all_digits(s)) by {
            assert forall|k: int| 0 <= k < s.len() implies is_digit(#[trigger] s[k]) by {
                if k < s.len() - 1 {
                    assert(s[k] == decimal(n / 10)[k]);
                }
            }
        }
    }
}

/// Two numbers with the same decimal writing are equal.
pub proof fn lemma_decimal_injective(a: nat, b: nat)
    requires
        decimal(a) == decimal(b),
    ensures
        a == b,
{
    lemma_decimal_round_trip(a);
    lemma_decimal_round_trip(b);
}

/// Appends the decimal writing of `n` to `out`.
pub fn push_decimal(out: &mut String, n: u64)
    ensures
        final(out)@ == old(out)@ + decimal(n as nat),
    decreases n,
{
    if n >= 10 {
        push_decimal(out, n / 10);
    }
    let d = (n % 10) as usize;
    let table = "0123456789";
    proof {
        reveal_strlit("0123456789");
    }
    let one = table.substring_char(d, d + 1);
    assert(one@ =~= seq![digit_char(d as nat)]);
    out.append(one);
    assert(decimal(n as nat) =~= if n < 10 { seq![digit_char(n as nat)] } else { decimal((n / 10) as nat).push(digit_char((n % 10) as nat)) });
    assert(out@ =~= old(out)@ + decimal(n as nat));
}

/// Whether `a` and `b` hold the same characters.
pub fn same_text(a: &str, b: &str) -> (r: bool)
    ensures
        r == (a@ == b@),
{
    let same = a.unicode_len() == b.unicode_len() && matches_at(a, b, 0);
    proof {
        if a@.len() == b@.len() {
            assert(a@.subrange(0, b@.len() as int) =~= a@);
        }
    }
    same
}

/// `s` without leading and trailing whitespace, as `str::trim` gives it.
pub uninterp spec fn trimmed(s: Seq<char>) -> Seq<char>;

/// Relies on `str::trim`: the part of `s` between leading and trailing
/// whitespace, a slice of `s` and so no longer than it.
#[verifier::external_body]
pub(crate) fn trim_ws(s: &str) -> (r: &str)
    ensures
        r@ == trimmed(s@),
        r.spec_bytes().len() <= s.spec_bytes().len(),
{
    s.trim()
}

} // verus!
