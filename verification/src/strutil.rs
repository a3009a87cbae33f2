//! Verified string helpers: equality, prefix test, ASCII-case-insensitive
//! comparison, and decimal parsing of the number at the tail of a URL.

use vstd::prelude::*;
use vstd::string::StrSliceExecFns;

verus! {

/// Character-wise equality of two string slices.
pub fn str_eq(a: &str, b: &str) -> (r: bool)
    ensures
        r == (a@ == b@),
{
    let la = a.unicode_len();
    let lb = b.unicode_len();
    if la != lb {
        proof {
            assert(a@ != b@);
        }
        return false;
    }
    let mut i: usize = 0;
    while i < la
        invariant
            i <= la,
            la == a@.len(),
            la == b@.len(),
            forall|j: int| 0 <= j < i ==> a@[j] == b@[j],
        decreases la - i,
    {
        if a.get_char(i) != b.get_char(i) {
            return false;
        }
        i += 1;
    }
    proof {
        assert(a@ =~= b@);
    }
    true
}

/// `p` is a prefix of `s`.
pub open spec fn spec_has_prefix(s: Seq<char>, p: Seq<char>) -> bool {
    p.len() <= s.len() && s.subrange(0, p.len() as int) == p
}

/// Whether `s` starts with `p`.
pub fn has_prefix(s: &str, p: &str) -> (r: bool)
    ensures
        r == spec_has_prefix(s@, p@),
{
    let ls = s.unicode_len();
    let lp = p.unicode_len();
    if lp > ls {
        return false;
    }
    let mut i: usize = 0;
    while i < lp
        invariant
            i <= lp,
            lp <= ls,
            ls == s@.len(),
            lp == p@.len(),
            forall|j: int| 0 <= j < i ==> s@[j] == p@[j],
        decreases lp - i,
    {
        if s.get_char(i) != p.get_char(i) {
            proof {
                assert(s@.subrange(0, p@.len() as int)[i as int] == s@[i as int]);
            }
            return false;
        }
        i += 1;
    }
    proof {
        assert(s@.subrange(0, p@.len() as int) =~= p@);
    }
    true
}

/// An upper-case ASCII letter mapped to lower case; anything else kept.
pub open spec fn spec_lower_char(c: char) -> char {
    if 'A' <= c && c <= 'Z' {
        (((c as u8) + 32) as char)
    } else {
        c
    }
}

fn lower_char(c: char) -> (r: char)
    ensures
        r == spec_lower_char(c),
{
    if 'A' <= c && c <= 'Z' {
        ((c as u8) + 32) as char
    } else {
        c
    }
}

/// Equality up to ASCII case.
pub open spec fn spec_eq_ignore_case(a: Seq<char>, b: Seq<char>) -> bool {
    a.len() == b.len() && forall|i: int|
        0 <= i < a.len() ==> spec_lower_char(#[trigger] a[i]) == spec_lower_char(b[i])
}

/// Whether two strings agree up to ASCII case.
pub fn eq_ignore_case(a: &str, b: &str) -> (r: bool)
    ensures
        r == spec_eq_ignore_case(a@, b@),
{
    let la = a.unicode_len();
    let lb = b.unicode_len();
    if la != lb {
        return false;
    }
    let mut i: usize = 0;
    while i < la
        invariant
            i <= la,
            la == a@.len(),
            la == b@.len(),
            forall|j: int| 0 <= j < i ==> spec_lower_char(#[trigger] a@[j]) == spec_lower_char(b@[j]),
        decreases la - i,
    {
        if lower_char(a.get_char(i)) != lower_char(b.get_char(i)) {
            return false;
        }
        i += 1;
    }
    true
}

/// The suffix of `s` after its last `/`, or all of `s` when it has none.
pub open spec fn tail_after_slash(s: Seq<char>) -> Seq<char>
    decreases s.len(),
{
    if s.len() == 0 {
        s
    } else if s.last() == '/' {
        Seq::empty()
    } else {
        tail_after_slash(s.drop_last()).push(s.last())
    }
}

/// A non-empty run of decimal digits.
pub open spec fn is_digits(s: Seq<char>) -> bool {
    s.len() > 0 && forall|i: int| 0 <= i < s.len() ==> '0' <= #[trigger] s[i] && s[i] <= '9'
}

/// The value of a digit run.
pub open spec fn digits_val(s: Seq<char>) -> int
    decreases s.len(),
{
    if s.len() == 0 {
        0
    } else {
        digits_val(s.drop_last()) * 10 + (s.last() as u32 - 48)
    }
}

/// The 64-bit integer a string denotes: an optional sign, then digits,
/// with the value in range; `None` otherwise.
pub open spec fn spec_parse_i64(s: Seq<char>) -> Option<i64> {
    let negative = s.len() > 0 && s[0] == '-';
    let body = if s.len() > 0 && (s[0] == '-' || s[0] == '+') {
        s.drop_first()
    } else {
        s
    };
    if !is_digits(body) {
        None
    } else {
        let v = if negative {
            -digits_val(body)
        } else {
            digits_val(body)
        };
        if i64::MIN <= v <= i64::MAX {
            Some(v as i64)
        } else {
            None
        }
    }
}

/// The number at the tail of a URL path, or 0 when the tail is not a
/// number.
pub open spec fn spec_tail_number(s: Seq<char>) -> i64 {
    match spec_parse_i64(tail_after_slash(s)) {
        Some(v) => v,
        None => 0,
    }
}

/// When everything from `k` on is slash-free and a slash sits just before
/// `k` (or `k` is 0), the tail after the last slash is the suffix from `k`.
proof fn lemma_tail_suffix(s: Seq<char>, k: int)
    requires
        0 <= k <= s.len(),
        forall|j: int| k <= j < s.len() ==> s[j] != '/',
        k > 0 ==> s[k - 1] == '/',
    ensures
        tail_after_slash(s) =~= s.subrange(k, s.len() as int),
    decreases s.len(),
{
    if s.len() == 0 {
    } else if k == s.len() {
        assert(s.last() == '/');
        assert(s.subrange(k, s.len() as int) =~= Seq::<char>::empty());
    } else {
        assert(s.last() != '/');
        let t = s.drop_last();
        assert(forall|j: int| k <= j < t.len() ==> t[j] != '/') by {
            assert(forall|j: int| 0 <= j < t.len() ==> t[j] == s[j]);
        }
        if k > 0 {
            assert(t[k - 1] == s[k - 1]);
        }
        lemma_tail_suffix(t, k);
        assert(tail_after_slash(t).push(s.last()) =~= s.subrange(k, s.len() as int)) by {
            assert(forall|j: int| 0 <= j < t.len() ==> t[j] == s[j]);
        }
    }
}

/// Parse the decimal number at the tail of a URL, defaulting to 0.
#[verifier::loop_isolation(false)]
pub fn tail_number(url: &str) -> (r: i64)
    ensures
        r == spec_tail_number(url@),
{
    let n = url.unicode_len();
    // Find the index just past the last slash.
    let mut k: usize = n;
    let mut found: bool = false;
    while k > 0 && !found
        invariant
            k <= n,
            n == url@.len(),
            forall|j: int| k <= j < n ==> url@[j] != '/',
            found ==> k > 0 && url@[k - 1] == '/',
        decreases k, (if found { 0int } else { 1int }),
    {
        if url.get_char(k - 1) == '/' {
            found = true;
        } else {
            k -= 1;
        }
    }
    proof {
        lemma_tail_suffix(url@, k as int);
    }
    let ghost tail = url@.subrange(k as int, n as int);
    // An optional sign.
    let mut i: usize = k;
    let mut negative: bool = false;
    if i < n {
        let c = url.get_char(i);
        if c == '-' {
            negative = true;
            i += 1;
        } else if c == '+' {
            i += 1;
        }
    }
    let ghost body = url@.subrange(i as int, n as int);
    proof {
        if i > k {
            assert(body =~= tail.drop_first());
        }
    }
    if i == n {
        // No digits at all.
        return 0;
    }
    // Accumulate digits; `huge` marks a magnitude beyond what an i64 can
    // carry (the largest magnitude of interest is 2^63, for the most
    // negative value).
    let huge: u64 = 9_223_372_036_854_775_809;
    let mut acc: u64 = 0;
    let mut j: usize = i;
    while j < n
        invariant
            i <= j <= n,
            i < n,
            n == url@.len(),
            body == url@.subrange(i as int, n as int),
            forall|m: int| i <= m < j ==> '0' <= #[trigger] url@[m] && url@[m] <= '9',
            acc <= huge,
            huge == 9_223_372_036_854_775_809,
            digits_val(url@.subrange(i as int, j as int)) <= 9_223_372_036_854_775_808 ==> acc
                == digits_val(url@.subrange(i as int, j as int)),
            digits_val(url@.subrange(i as int, j as int)) > 9_223_372_036_854_775_808 ==> acc
                == huge,
        decreases n - j,
    {
        let c = url.get_char(j);
        if c < '0' || c > '9' {
            proof {
                assert(body[j - i] == url@[j as int]);
                assert(!is_digits(body));
                assert(tail_after_slash(url@) == tail);
                if i > k {
                    assert(tail.len() > 0 && (tail[0] == '-' || tail[0] == '+'));
                    assert(body == tail.drop_first());
                } else {
                    assert(tail[0] == url@[k as int]);
                    assert(!(tail[0] == '-' || tail[0] == '+'));
                    assert(body == tail);
                }
                assert(spec_parse_i64(tail) is None);
            }
            return 0;
        }
        let d: u64 = (c as u32 - 48) as u64;
        proof {
            assert(url@.subrange(i as int, j + 1).drop_last() =~= url@.subrange(
                i as int,
                j as int,
            ));
            assert(url@.subrange(i as int, j + 1).last() == url@[j as int]);
        }
        if acc >= 1_000_000_000_000_000_000 {
            acc = huge;
        } else {
            acc = acc * 10 + d;
            if acc > 9_223_372_036_854_775_808 {
                acc = huge;
            }
        }
        j += 1;
    }
    proof {
        assert(body =~= url@.subrange(i as int, n as int));
        assert(is_digits(body));
    }
    if negative {
        if acc == huge {
            0
        } else if acc == 9_223_372_036_854_775_808 {
            i64::MIN
        } else {
            -(acc as i64)
        }
    } else {
        if acc >= 9_223_372_036_854_775_808 {
            0
        } else {
            acc as i64
        }
    }
}

} // verus!
