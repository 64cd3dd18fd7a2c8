//! Decimal integer parsing, as `str::parse::<i32>` does it.
use vstd::prelude::*;

verus! {

/// `c` is one of the ASCII digits `0`..`9`.
pub open spec fn is_digit(c: char) -> bool {
    '0' <= c && c <= '9'
}

/// Every character of `s` is an ASCII digit.
pub open spec fn all_digits(s: Seq<char>) -> bool {
    forall|i: int| 0 <= i < s.len() ==> is_digit(#[trigger] s[i])
}

/// Whether `s` is exactly four ASCII digits, the way a year is written.
pub fn is_four_digits(s: &Vec<char>) -> (r: bool)
    ensures
        r == (s@.len() == 4 && all_digits(s@)),
{
    if s.len() != 4 {
        return false;
    }
    let mut i: usize = 0;
    while i < 4
        invariant
            s@.len() == 4,
            i <= 4,
            forall|j: int| 0 <= j < i ==> is_digit(#[trigger] s@[j]),
        decreases 4 - i,
    {
        let c = s[i];
        if !('0' <= c && c <= '9') {
            return false;
        }
        i = i + 1;
    }
    true
}

/// The value of the decimal digit `c`.
pub open spec fn digit_value(c: char) -> int {
    c as int - '0' as int
}

/// The value of the digit string `s` (0 for the empty string).
pub open spec fn digits_value(s: Seq<char>) -> int
    decreases s.len(),
{
    if s.len() == 0 {
        0
    } else {
        digits_value(s.drop_last()) * 10 + digit_value(s.last())
    }
}

/// What `str::parse::<i32>` accepts: an optional `+` or `-`, then one or more
/// ASCII digits, whose value fits in an `i32`. Nothing else (no blanks).
pub open spec fn parse_i32_spec(s: Seq<char>) -> Option<int> {
    let signed = s.len() > 0 && (s[0] == '-' || s[0] == '+');
    let digits = if signed { s.skip(1) } else { s };
    if digits.len() == 0 || !all_digits(digits) {
        None
    } else {
        let v = if s[0] == '-' { -digits_value(digits) } else { digits_value(digits) };
        if i32::MIN <= v <= i32::MAX { Some(v) } else { None }
    }
}

/// A longer digit string is worth at least as much as its prefixes.
pub proof fn lemma_digits_value_prefix(s: Seq<char>, k: int)
    requires
        all_digits(s),
        0 <= k <= s.len(),
    ensures
        0 <= digits_value(s.take(k)) <= digits_value(s),
    decreases s.len(),
{
    if k == s.len() {
        assert(s.take(k) == s);
        lemma_digits_value_nonneg(s);
    } else {
        let t = s.drop_last();
        assert(all_digits(t)) by {
            assert forall|i: int| 0 <= i < t.len() implies is_digit(#[trigger] t[i]) by {
                assert(t[i] == s[i]);
            }
        }
        lemma_digits_value_prefix(t, k);
        assert(t.take(k) == s.take(k));
        lemma_digits_value_nonneg(t);
        assert(is_digit(s[s.len() - 1]));
    }
}

/// A digit string has a non-negative value.
pub proof fn lemma_digits_value_nonneg(s: Seq<char>)
    requires
        all_digits(s),
    ensures
        digits_value(s) >= 0,
    decreases s.len(),
{
    if s.len() > 0 {
        let t = s.drop_last();
        assert(all_digits(t)) by {
            assert forall|i: int| 0 <= i < t.len() implies is_digit(#[trigger] t[i]) by {
                assert(t[i] == s[i]);
            }
        }
        lemma_digits_value_nonneg(t);
        assert(is_digit(s[s.len() - 1]));
    }
}

/// Parses `s` as `str::parse::<i32>` does; `None` where that returns an error.
pub fn parse_i32(s: &[char]) -> (r: Option<i32>)
    ensures
        r matches Some(v) ==> parse_i32_spec(s@) == Some(v as int),
        r is None ==> parse_i32_spec(s@) is None,
{
    let n = s.len();
    let signed = n > 0 && (s[0] == '-' || s[0] == '+');
    let start: usize = if signed { 1 } else { 0 };
    let ghost digits = if signed { s@.skip(1) } else { s@ };
    assert(digits.len() == n - start);
    assert(s@.skip(0) == s@);
    if start == n {
        return None;
    }
    let mut acc: i64 = 0;
    let mut i = start;
    while i < n
        invariant
            n == s@.len(),
            start <= i <= n,
            start == (if s@.len() > 0 && (s@[0] == '-' || s@[0] == '+') { 1int } else { 0int }),
            digits == s@.skip(start as int),
            digits == (if s@.len() > 0 && (s@[0] == '-' || s@[0] == '+') { s@.skip(1) } else { s@ }),
            all_digits(digits.take(i - start)),
            acc == digits_value(digits.take(i - start)),
            0 <= acc <= 2147483648,
        decreases n - i,
    {
        let c = s[i];
        if !('0' <= c && c <= '9') {
            assert(digits[i - start] == c);
            return None;
        }
        let d = (c as u32 - '0' as u32) as i64;
        let ghost k = i - start;
        assert(digits.take(k + 1).drop_last() == digits.take(k));
        assert(digits.take(k + 1).last() == c);
        assert(all_digits(digits.take(k + 1))) by {
            assert forall|j: int| 0 <= j < k + 1 implies is_digit(#[trigger] digits.take(k + 1)[j]) by {
                if j < k {
                    assert(digits.take(k + 1)[j] == digits.take(k)[j]);
                }
            }
        }
        assert(d == digit_value(c));
        acc = acc * 10 + d;
        assert(acc == digits_value(digits.take(k + 1)));
        i = i + 1;
        if acc > 2147483648 {
            proof {
                if all_digits(digits) {
                    lemma_digits_value_prefix(digits, k + 1);
                    assert(digits_value(digits) > 2147483648);
                    if s@[0] == '-' {
                        assert(-digits_value(digits) < i32::MIN);
                    } else {
                        assert(digits_value(digits) > i32::MAX);
                    }
                }
            }
            return None;
        }
    }
    assert(digits.take(n - start) == digits);
    if s[0] == '-' {
        Some((0 - acc) as i32)
    } else if acc > 2147483647 {
        None
    } else {
        Some(acc as i32)
    }
}

} // verus!
