//! Reading decimal numbers from text.
//!
//! A number is one or more of the digits `0` to `9`. An unsigned number may
//! have a plus sign in front, a signed one a plus or a minus sign. Nothing
//! else may stand in the text, neither blanks nor digits of other scripts.

use crate::text::chars_of;
use vstd::prelude::*;

verus! {

/// Whether a character is one of the ten decimal digits.
pub open spec fn is_digit(c: char) -> bool {
    '0' <= c && c <= '9'
}

/// Whether every character of `s` is a decimal digit.
pub open spec fn all_digits(s: Seq<char>) -> bool {
    forall|i: int| 0 <= i < s.len() ==> is_digit(#[trigger] s[i])
}

/// The number that a string of decimal digits writes.
pub open spec fn decimal_value(s: Seq<char>) -> nat
    decreases s.len(),
{
    if s.len() == 0 {
        0
    } else {
        decimal_value(s.drop_last()) * 10 + (s.last() as u32 - 0x30) as nat
    }
}

/// The number that `s` writes, if `s` is one or more digits and the number is
/// at most `limit`.
pub open spec fn bounded_decimal(s: Seq<char>, limit: nat) -> Option<nat> {
    if s.len() > 0 && all_digits(s) && decimal_value(s) <= limit {
        Some(decimal_value(s))
    } else {
        None
    }
}

/// What is left of `s` without a plus sign at its front.
pub open spec fn without_plus(s: Seq<char>) -> Seq<char> {
    if s.len() > 0 && s[0] == '+' {
        s.drop_first()
    } else {
        s
    }
}

/// The count that a text writes: one or more decimal digits, a plus sign
/// before them if one likes, and a value that a `usize` can hold.
pub open spec fn parse_count(s: Seq<char>) -> Option<usize> {
    match bounded_decimal(without_plus(s), usize::MAX as nat) {
        Some(n) => Some(n as usize),
        None => None,
    }
}

/// The signed 32-bit number that a text writes: one or more decimal digits
/// with a plus or a minus sign before them if one likes, and a value between
/// -2^31 and 2^31 - 1.
pub open spec fn parse_int32(s: Seq<char>) -> Option<i32> {
    if s.len() > 0 && s[0] == '-' {
        match bounded_decimal(s.drop_first(), 0x8000_0000) {
            Some(n) => Some((-n) as i32),
            None => None,
        }
    } else {
        match bounded_decimal(without_plus(s), 0x7fff_ffff) {
            Some(n) => Some(n as i32),
            None => None,
        }
    }
}

/// The digits at the front of a number write no more than the number.
pub proof fn lemma_decimal_prefix(s: Seq<char>, k: int)
    requires
        0 <= k <= s.len(),
        all_digits(s),
    ensures
        decimal_value(s.subrange(0, k)) <= decimal_value(s),
    decreases s.len() - k,
{
    if k == s.len() {
        assert(s.subrange(0, k) =~= s);
    } else {
        let head = s.drop_last();
        assert(head.subrange(0, k) =~= s.subrange(0, k));
        assert(all_digits(head)) by {
            assert forall|i: int| 0 <= i < head.len() implies is_digit(#[trigger] head[i]) by {
                assert(head[i] == s[i]);
            }
        }
        lemma_decimal_prefix(head, k);
    }
}

/// Reads the characters of `cs` from `from` up to `to` as a number of at most
/// `limit`.
pub fn read_decimal(cs: &[char], from: usize, to: usize, limit: u64) -> (r: Option<u64>)
    requires
        from <= to <= cs.len(),
    ensures
        match r {
            Some(n) => bounded_decimal(cs@.subrange(from as int, to as int), limit as nat)
                == Some(n as nat),
            None => bounded_decimal(cs@.subrange(from as int, to as int), limit as nat) is None,
        },
{
    let ghost digits = cs@.subrange(from as int, to as int);
    if from == to {
        return None;
    }
    let mut acc: u64 = 0;
    let mut i: usize = from;
    while i < to
        invariant
            from <= i <= to <= cs.len(),
            digits == cs@.subrange(from as int, to as int),
            all_digits(digits.subrange(0, i - from)),
            acc == decimal_value(digits.subrange(0, i - from)),
            acc <= limit,
        decreases to - i,
    {
        let c = cs[i];
        let ghost head = digits.subrange(0, i - from);
        let ghost next = digits.subrange(0, i - from + 1);
        assert(digits[i - from] == c);
        if !('0' <= c && c <= '9') {
            assert(!all_digits(digits));
            return None;
        }
        let d: u64 = (c as u32 - 0x30) as u64;
        proof {
            assert(next.drop_last() =~= head);
            assert(next.last() == c);
            assert(all_digits(next)) by {
                assert forall|j: int| 0 <= j < next.len() implies is_digit(#[trigger] next[j]) by {
                    if j < head.len() {
                        assert(next[j] == head[j]);
                    }
                }
            }
            assert(decimal_value(next) == acc * 10 + d);
            if all_digits(digits) {
                lemma_decimal_prefix(digits, i - from + 1);
            }
        }
        if d > limit || acc > (limit - d) / 10 {
            assert(acc * 10 + d > limit);
            return None;
        }
        acc = acc * 10 + d;
        i += 1;
    }
    assert(digits.subrange(0, to - from) =~= digits);
    Some(acc)
}

/// Reads the characters of `cs` from `from` up to `to` as a count.
pub fn read_count(cs: &[char], from: usize, to: usize) -> (r: Option<usize>)
    requires
        from <= to <= cs.len(),
    ensures
        r == parse_count(cs@.subrange(from as int, to as int)),
{
    let ghost s = cs@.subrange(from as int, to as int);
    let start: usize = if from < to && cs[from] == '+' {
        from + 1
    } else {
        from
    };
    assert(without_plus(s) =~= cs@.subrange(start as int, to as int));
    match read_decimal(cs, start, to, usize::MAX as u64) {
        Some(n) => Some(n as usize),
        None => None,
    }
}

/// Reads the characters of `cs` from `from` up to `to` as a signed 32-bit
/// number.
pub fn read_int32(cs: &[char], from: usize, to: usize) -> (r: Option<i32>)
    requires
        from <= to <= cs.len(),
    ensures
        r == parse_int32(cs@.subrange(from as int, to as int)),
{
    let ghost s = cs@.subrange(from as int, to as int);
    if from < to && cs[from] == '-' {
        assert(s.drop_first() =~= cs@.subrange(from + 1, to as int));
        match read_decimal(cs, from + 1, to, 0x8000_0000) {
            Some(n) => Some((-(n as i64)) as i32),
            None => None,
        }
    } else {
        let start: usize = if from < to && cs[from] == '+' {
            from + 1
        } else {
            from
        };
        assert(without_plus(s) =~= cs@.subrange(start as int, to as int));
        match read_decimal(cs, start, to, 0x7fff_ffff) {
            Some(n) => Some(n as i32),
            None => None,
        }
    }
}

/// Reads a count.
pub fn parse_usize(s: &str) -> (r: Option<usize>)
    ensures
        r == parse_count(s@),
{
    let cs = chars_of(s);
    assert(cs@.subrange(0, cs@.len() as int) =~= s@);
    read_count(cs.as_slice(), 0, cs.len())
}

/// Reads a signed 32-bit number.
pub fn parse_i32(s: &str) -> (r: Option<i32>)
    ensures
        r == parse_int32(s@),
{
    let cs = chars_of(s);
    assert(cs@.subrange(0, cs@.len() as int) =~= s@);
    read_int32(cs.as_slice(), 0, cs.len())
}

} // verus!
