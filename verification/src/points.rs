//! Reward points: signed whole numbers, read from the text of a statement
//! cell.

use crate::amount::{char_is_digit, digit_value, is_digit, unsigned_part};
use crate::text::{chars_of, replace_all, replaced, trim, trimmed};
use vstd::prelude::*;

verus! {

/// Every character of `s` is a digit.
pub open spec fn all_digits(s: Seq<char>) -> bool {
    forall|i: int| 0 <= i < s.len() ==> is_digit(#[trigger] s[i])
}

/// The number that the digits `s` write in base ten.
pub open spec fn decimal_value(s: Seq<char>) -> nat
    decreases s.len(),
{
    if s.len() == 0 {
        0
    } else {
        decimal_value(s.drop_last()) * 10 + digit_value(s.last()) as nat
    }
}

/// The whole number that `s` writes: an optional sign, then digits only, at
/// least one, and in all a value that 32 signed bits hold.
pub open spec fn spec_parse_i32(s: Seq<char>) -> Option<i32> {
    let body = unsigned_part(s);
    let value: int = if s.len() > 0 && s[0] == '-' {
        -(decimal_value(body) as int)
    } else {
        decimal_value(body) as int
    };
    if body.len() > 0 && all_digits(body) && i32::MIN <= value <= i32::MAX {
        Some(value as i32)
    } else {
        None
    }
}

/// The text of a points cell with a sign closed up to its digits and the
/// surrounding space removed.
pub open spec fn normalized_points(s: Seq<char>) -> Seq<char> {
    trim(replace_all(replace_all(s, "+ "@, "+"@), "- "@, "-"@))
}

/// The reward points that the cell `s` holds, if it holds any.
pub open spec fn spec_parse_points(s: Seq<char>) -> Option<i32> {
    spec_parse_i32(normalized_points(s))
}

/// A prefix of a run of digits writes no larger a number than the run.
pub proof fn lemma_decimal_value_monotonic(s: Seq<char>, k: int)
    requires
        0 <= k <= s.len(),
    ensures
        decimal_value(s.take(k)) <= decimal_value(s),
    decreases s.len() - k,
{
    if k == s.len() {
        assert(s.take(k) == s);
    } else {
        lemma_decimal_value_monotonic(s.drop_last(), k);
        assert(s.drop_last().take(k) == s.take(k));
    }
}

/// Reads a signed whole number.
pub fn parse_i32(s: &Vec<char>) -> (r: Option<i32>)
    ensures
        r == spec_parse_i32(s@),
{
    let negative = s.len() > 0 && s[0] == '-';
    let start: usize = if s.len() > 0 && (s[0] == '+' || s[0] == '-') {
        1
    } else {
        0
    };
    let ghost body = unsigned_part(s@);
    assert(body == s@.skip(start as int));
    if start == s.len() {
        return None;
    }
    let mut acc: i64 = 0;
    let mut i: usize = start;
    assert(body.take(0) == Seq::<char>::empty());
    while i < s.len()
        invariant
            start <= i <= s.len(),
            body == unsigned_part(s@),
            body == s@.skip(start as int),
            forall|k: int| 0 <= k < i - start ==> is_digit(#[trigger] body[k]),
            acc == decimal_value(body.take(i - start)),
            0 <= acc <= 2147483648,
        decreases s.len() - i,
    {
        let c: char = s[i];
        assert(body[i - start] == c);
        if !char_is_digit(c) {
            return None;
        }
        let ghost next = body.take(i + 1 - start);
        assert(next.drop_last() == body.take(i - start));
        assert(next.last() == c);
        acc = acc * 10 + ((c as u32 - 48) as i64);
        if acc > 2147483648 {
            proof {
                if all_digits(body) {
                    lemma_decimal_value_monotonic(body, i + 1 - start);
                }
            }
            return None;
        }
        i += 1;
    }
    assert(body.take(s.len() - start) == body);
    if negative {
        Some((-acc) as i32)
    } else if acc == 2147483648 {
        None
    } else {
        Some(acc as i32)
    }
}

/// Reads the reward points of a cell: a whole number whose sign may stand
/// apart from its digits by one space.
pub fn parse_points(s: &str) -> (r: Option<i32>)
    ensures
        r == spec_parse_points(s@),
{
    let raw = chars_of(s);
    let plus = replaced(&raw, "+ ", "+");
    let minus = replaced(&plus, "- ", "-");
    let clean = trimmed(&minus);
    parse_i32(&clean)
}

} // verus!
