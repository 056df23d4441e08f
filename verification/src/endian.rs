//! Big-endian encoding of 32-bit fields.

use vstd::prelude::*;

verus! {

/// The four bytes of `v`, most significant first.
pub open spec fn be32(v: u32) -> Seq<u8> {
    seq![
        (v / 0x100_0000) as u8,
        ((v / 0x1_0000) % 0x100) as u8,
        ((v / 0x100) % 0x100) as u8,
        (v % 0x100) as u8,
    ]
}

/// The number whose big-endian bytes are the first four elements of `b`.
pub open spec fn be32_value(b: Seq<u8>) -> u32
    recommends
        b.len() >= 4,
{
    (b[0] * 0x100_0000 + b[1] * 0x1_0000 + b[2] * 0x100 + b[3]) as u32
}

/// Decoding the encoding of a number gives the number back.
pub proof fn lemma_be32_value_of_bytes(v: u32)
    ensures
        be32(v).len() == 4,
        be32_value(be32(v)) == v,
{
}

/// Encoding the number read from four bytes gives those bytes back.
pub proof fn lemma_be32_bytes_of_value(b: Seq<u8>)
    requires
        b.len() == 4,
    ensures
        be32(be32_value(b)) == b,
{
    assert(be32(be32_value(b)) =~= b);
}

/// Two numbers with the same encoding are equal.
pub proof fn lemma_be32_injective(v: u32, w: u32)
    requires
        be32(v) == be32(w),
    ensures
        v == w,
{
    lemma_be32_value_of_bytes(v);
    lemma_be32_value_of_bytes(w);
}

/// Encodes `v` as four big-endian bytes.
pub fn u32_to_be(v: u32) -> (r: [u8; 4])
    ensures
        r@ == be32(v),
{
    let r = [
        (v / 0x100_0000) as u8,
        ((v / 0x1_0000) % 0x100) as u8,
        ((v / 0x100) % 0x100) as u8,
        (v % 0x100) as u8,
    ];
    assert(r@ =~= be32(v));
    r
}

/// Reads the big-endian number stored in the four bytes of `b` that start at `at`.
pub fn u32_from_be(b: &[u8], at: usize) -> (r: u32)
    requires
        at + 4 <= b.len(),
    ensures
        r == be32_value(b@.subrange(at as int, at + 4)),
{
    let b0: u32 = b[at] as u32;
    let b1: u32 = b[at + 1] as u32;
    let b2: u32 = b[at + 2] as u32;
    let b3: u32 = b[at + 3] as u32;
    b0 * 0x100_0000 + b1 * 0x1_0000 + b2 * 0x100 + b3
}

} // verus!
