//! The version that the mirrors announce, compared with the running one.

use vstd::prelude::*;
use vstd::string::*;
use crate::text::chars_of;

verus! {

/// Whether `c` is white space as `char::is_whitespace` defines it.
pub open spec fn is_space(c: char) -> bool {
    let v = c as u32;
    ||| 0x09 <= v <= 0x0d
    ||| v == 0x20
    ||| v == 0x85
    ||| v == 0xa0
    ||| v == 0x1680
    ||| 0x2000 <= v <= 0x200a
    ||| v == 0x2028
    ||| v == 0x2029
    ||| v == 0x202f
    ||| v == 0x205f
    ||| v == 0x3000
}

/// Whether `c` is one of the ten decimal digits.
pub open spec fn is_digit(c: char) -> bool {
    '0' <= c <= '9'
}

/// The number that a sequence of decimal digits stands for.
pub open spec fn digits_value(digits: Seq<char>) -> nat
    decreases digits.len(),
{
    if digits.len() == 0 {
        0
    } else {
        digits_value(digits.drop_last()) * 10 + (digits.last() as u32 - '0' as u32) as nat
    }
}

/// The index of the first character of `s` at or after `from` that is no
/// white space, or the length of `s`.
pub open spec fn skip_spaces(s: Seq<char>, from: int) -> int
    decreases s.len() - from,
{
    if from < 0 || from >= s.len() || !is_space(s[from]) {
        if from < s.len() {
            from
        } else {
            s.len() as int
        }
    } else {
        skip_spaces(s, from + 1)
    }
}

/// The index behind the last character of `s` before `to` that is no white
/// space, but not less than `floor`.
pub open spec fn drop_spaces(s: Seq<char>, floor: int, to: int) -> int
    decreases to - floor,
{
    if to <= floor || to > s.len() || !is_space(s[to - 1]) {
        to
    } else {
        drop_spaces(s, floor, to - 1)
    }
}

/// `s` without the white space at its two ends.
pub open spec fn trimmed(s: Seq<char>) -> Seq<char> {
    let start = skip_spaces(s, 0);
    let end = drop_spaces(s, start, s.len() as int);
    s.subrange(start, end)
}

/// The digits of a number written with an optional plus sign before them.
pub open spec fn unsigned_digits(s: Seq<char>) -> Seq<char> {
    if s.len() > 0 && s[0] == '+' {
        s.drop_first()
    } else {
        s
    }
}

/// Whether `s` is made of decimal digits only.
pub open spec fn all_digits(s: Seq<char>) -> bool {
    forall|i: int| 0 <= i < s.len() ==> is_digit(#[trigger] s[i])
}

/// The version that a text announces: the text, without the white space
/// around it, must be a decimal number that fits in 32 bits, with at least
/// one digit and at most a plus sign before the digits.
pub open spec fn version_of(text: Seq<char>) -> Option<u32> {
    let digits = unsigned_digits(trimmed(text));
    if digits.len() > 0 && all_digits(digits) && digits_value(digits) <= u32::MAX {
        Some(digits_value(digits) as u32)
    } else {
        None
    }
}

/// A number only grows when digits are appended to it.
proof fn lemma_digits_value_grows(digits: Seq<char>, k: int)
    requires
        0 <= k <= digits.len(),
    ensures
        digits_value(digits.subrange(0, k)) <= digits_value(digits),
    decreases digits.len() - k,
{
    if k == digits.len() {
        assert(digits.subrange(0, k) =~= digits);
    } else {
        lemma_digits_value_grows(digits, k + 1);
        assert(digits.subrange(0, k + 1).drop_last() =~= digits.subrange(0, k));
    }
}

/// Reads the version that a text announces.
pub fn parse_version(text: &str) -> (version: Option<u32>)
    ensures
        version == version_of(text@),
{
    let chars = chars_of(text);
    let n: usize = chars.len();
    let mut start: usize = 0;
    while start < n && is_whitespace(chars[start])
        invariant
            start <= n,
            n == chars.len(),
            skip_spaces(chars@, 0) == skip_spaces(chars@, start as int),
        decreases n - start,
    {
        start = start + 1;
    }
    let mut end: usize = n;
    while end > start && is_whitespace(chars[end - 1])
        invariant
            start <= end <= n,
            n == chars.len(),
            drop_spaces(chars@, start as int, n as int) == drop_spaces(
                chars@,
                start as int,
                end as int,
            ),
        decreases end - start,
    {
        end = end - 1;
    }
    assert(chars@.subrange(start as int, end as int) == trimmed(text@));
    let mut at: usize = start;
    if at < end && chars[at] == '+' {
        at = at + 1;
    }
    let ghost digits = chars@.subrange(at as int, end as int);
    assert(digits =~= unsigned_digits(trimmed(text@)));
    if at >= end {
        return None;
    }
    let mut value: u32 = 0;
    let mut i: usize = at;
    while i < end
        invariant
            at <= i <= end <= n,
            n == chars.len(),
            digits == chars@.subrange(at as int, end as int),
            digits == unsigned_digits(trimmed(text@)),
            all_digits(digits.subrange(0, i - at)),
            value == digits_value(digits.subrange(0, i - at)),
        decreases end - i,
    {
        let c: char = chars[i];
        let ghost k: int = i - at;
        proof {
            assert(digits[k] == c);
            assert(digits.subrange(0, k + 1).drop_last() =~= digits.subrange(0, k));
            assert(digits.subrange(0, k + 1).last() == c);
        }
        if !(c >= '0' && c <= '9') {
            proof {
                assert(!is_digit(digits[k]));
            }
            return None;
        }
        let d: u32 = c as u32 - '0' as u32;
        if value > (u32::MAX - d) / 10 {
            proof {
                lemma_digits_value_grows(digits, k + 1);
                assert(digits_value(digits.subrange(0, k + 1)) == value * 10 + d);
            }
            return None;
        }
        value = value * 10 + d;
        proof {
            assert forall|j: int| 0 <= j < k + 1 implies is_digit(
                #[trigger] digits.subrange(0, k + 1)[j],
            ) by {
                if j < k {
                    assert(digits.subrange(0, k)[j] == digits[j]);
                }
            }
        }
        i = i + 1;
    }
    proof {
        assert(digits.subrange(0, i - at) =~= digits);
    }
    Some(value)
}

/// Whether `c` is white space.
fn is_whitespace(c: char) -> (r: bool)
    ensures
        r == is_space(c),
{
    let v: u32 = c as u32;
    (0x09 <= v && v <= 0x0d) || v == 0x20 || v == 0x85 || v == 0xa0 || v == 0x1680 || (0x2000 <= v
        && v <= 0x200a) || v == 0x2028 || v == 0x2029 || v == 0x202f || v == 0x205f || v == 0x3000
}

/// Whether the mirrors announce a newer version than the running one. This
/// warrants a warning, never a stop.
pub fn is_outdated(local: u32, remote: u32) -> (r: bool)
    ensures
        r == (local < remote),
{
    local < remote
}

} // verus!
