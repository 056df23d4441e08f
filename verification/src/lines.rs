//! Lines of a text and their checksums.
//!
//! A line ends at a line feed, or at a carriage return directly followed by a
//! line feed; neither belongs to the line. What follows the last line feed is
//! a line of its own unless it is empty, and a carriage return at its end
//! stays part of it.

use crate::modular::lemma_wrapping_step;
use vstd::prelude::*;
use vstd::slice::slice_subrange;
use vstd::utf8::encode_utf8;

verus! {

/// The position of the first element `lf` of `s` at or after `from`; the
/// length of `s` when there is none.
pub open spec fn next_break<T>(s: Seq<T>, lf: T, from: int) -> int
    decreases s.len() - from,
{
    if from < 0 || from >= s.len() {
        s.len() as int
    } else if s[from] == lf {
        from
    } else {
        next_break(s, lf, from + 1)
    }
}

/// Where the line that starts at `start` and is broken at `brk` ends: before
/// the element `cr`, if one stands directly before the break.
pub open spec fn line_end<T>(s: Seq<T>, cr: T, start: int, brk: int) -> int {
    if brk < s.len() && start < brk && s[brk - 1] == cr {
        brk - 1
    } else {
        brk
    }
}

/// The first break at or after `from` is not before `from`, nothing between
/// the two is a break, and it is a break unless it is the end.
pub proof fn lemma_next_break<T>(s: Seq<T>, lf: T, from: int)
    requires
        0 <= from <= s.len(),
    ensures
        from <= next_break(s, lf, from) <= s.len(),
        next_break(s, lf, from) < s.len() ==> s[next_break(s, lf, from)] == lf,
        forall|i: int| from <= i < next_break(s, lf, from) ==> s[i] != lf,
    decreases s.len() - from,
{
    if from < s.len() && s[from] != lf {
        lemma_next_break(s, lf, from + 1);
    }
}

/// The lines of `s` from position `start` on, where `lf` breaks a line and a
/// `cr` directly before it goes with it.
pub open spec fn lines_from<T>(s: Seq<T>, lf: T, cr: T, start: int) -> Seq<Seq<T>>
    decreases s.len() - start,
{
    if start < 0 || start >= s.len() {
        Seq::empty()
    } else {
        let brk = next_break(s, lf, start);
        let rest = if start <= brk < s.len() {
            lines_from(s, lf, cr, brk + 1)
        } else {
            Seq::empty()
        };
        seq![s.subrange(start, line_end(s, cr, start, brk))] + rest
    }
}

/// The lines of a byte string.
pub open spec fn lines_of(b: Seq<u8>) -> Seq<Seq<u8>> {
    lines_from(b, 10u8, 13u8, 0)
}

/// The lines of a text.
pub open spec fn text_lines(s: Seq<char>) -> Seq<Seq<char>> {
    lines_from(s, '\n', '\r', 0)
}

/// The sum of the bytes of `b`.
pub open spec fn byte_sum(b: Seq<u8>) -> nat
    decreases b.len(),
{
    if b.len() == 0 {
        0
    } else {
        byte_sum(b.drop_last()) + b.last() as nat
    }
}

/// The checksum of a line: the sum of its bytes modulo 2^64.
pub open spec fn checksum(b: Seq<u8>) -> u64 {
    (byte_sum(b) % 0x1_0000_0000_0000_0000) as u64
}

/// The checksums of the lines of `b` from position `start` on.
pub open spec fn line_values_from(b: Seq<u8>, start: int) -> Seq<u64> {
    lines_from(b, 10u8, 13u8, start).map_values(|line: Seq<u8>| checksum(line))
}

/// The checksums of the lines of `b`.
pub open spec fn line_values_of(b: Seq<u8>) -> Seq<u64> {
    line_values_from(b, 0)
}

/// The line of `content` that starts at `start`: where it ends, and where it
/// is broken. The break is the length of `content` for a last line without a
/// line feed.
pub fn line_at(content: &[u8], start: usize) -> (r: (usize, usize))
    requires
        start < content.len(),
    ensures
        r.1 == next_break(content@, 10u8, start as int),
        r.0 == line_end(content@, 13u8, start as int, r.1 as int),
        start <= r.0 <= r.1 <= content.len(),
{
    let mut brk: usize = start;
    while brk < content.len() && content[brk] != 10
        invariant
            start <= brk <= content@.len(),
            next_break(content@, 10u8, start as int) == next_break(content@, 10u8, brk as int),
        decreases content@.len() - brk,
    {
        brk += 1;
    }
    let end: usize = if brk < content.len() && start < brk && content[brk - 1] == 13 {
        brk - 1
    } else {
        brk
    };
    (end, brk)
}

/// The line of the text `content` that starts at `start`: where it ends, and
/// where it is broken.
pub fn text_line_at(content: &[char], start: usize) -> (r: (usize, usize))
    requires
        start < content.len(),
    ensures
        r.1 == next_break(content@, '\n', start as int),
        r.0 == line_end(content@, '\r', start as int, r.1 as int),
        start <= r.0 <= r.1 <= content.len(),
{
    let mut brk: usize = start;
    while brk < content.len() && content[brk] != '\n'
        invariant
            start <= brk <= content@.len(),
            next_break(content@, '\n', start as int) == next_break(content@, '\n', brk as int),
        decreases content@.len() - brk,
    {
        brk += 1;
    }
    let end: usize = if brk < content.len() && start < brk && content[brk - 1] == '\r' {
        brk - 1
    } else {
        brk
    };
    (end, brk)
}

/// The checksum of a byte string.
pub fn bytes_value(b: &[u8]) -> (r: u64)
    ensures
        r == checksum(b@),
{
    let mut acc: u64 = 0;
    let mut i: usize = 0;
    while i < b.len()
        invariant
            i <= b@.len(),
            acc == checksum(b@.subrange(0, i as int)),
        decreases b@.len() - i,
    {
        proof {
            let head = b@.subrange(0, i as int);
            let next = b@.subrange(0, i + 1);
            assert(next.drop_last() =~= head);
            lemma_wrapping_step(byte_sum(head), acc, b@[i as int] as u64);
        }
        acc = acc.wrapping_add(b[i] as u64);
        i += 1;
    }
    assert(b@.subrange(0, b@.len() as int) =~= b@);
    acc
}

/// The checksums of the lines of `content`.
pub fn line_values(content: &[u8]) -> (r: Vec<u64>)
    ensures
        r@ == line_values_of(content@),
{
    let mut out: Vec<u64> = Vec::new();
    let mut start: usize = 0;
    while start < content.len()
        invariant
            start <= content@.len(),
            line_values_of(content@) == out@ + line_values_from(content@, start as int),
        decreases content@.len() - start,
    {
        let (end, brk) = line_at(content, start);
        let value = bytes_value(slice_subrange(content, start, end));
        proof {
            let b = content@;
            let tail = lines_from(b, 10u8, 13u8, brk + 1);
            assert(lines_from(b, 10u8, 13u8, start as int) == seq![
                b.subrange(start as int, end as int),
            ] + tail);
            assert(line_values_from(b, start as int) =~= seq![value] + line_values_from(
                b,
                brk + 1,
            ));
        }
        out.push(value);
        if brk == content.len() {
            proof {
                assert(line_values_from(content@, brk + 1) =~= Seq::<u64>::empty());
            }
            return out;
        }
        start = brk + 1;
    }
    proof {
        assert(line_values_from(content@, start as int) =~= Seq::<u64>::empty());
    }
    out
}

/// The checksum of a line of text: the sum of its UTF-8 bytes modulo 2^64.
pub fn line_value(line: &str) -> (r: u64)
    ensures
        r == checksum(encode_utf8(line@)),
{
    bytes_value(line.as_bytes())
}

} // verus!
