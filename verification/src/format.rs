//! The binary layout of the container: a 12-byte header followed by a table of
//! 73-byte section records.
//!
//! ```text
//! header   [magic:4][version:4][section_count:4]
//! record   [type:1][name:32][offset:4][length:4][hash:32]
//! ```
//!
//! All numbers are big-endian. A name shorter than 32 bytes is stored with
//! zero bytes in front of it. Offsets count from the start of the whole
//! container, not from the end of the table.

use crate::endian::{be32, be32_value, lemma_be32_value_of_bytes, u32_from_be, u32_to_be};
use crate::text::string_from_utf8;
use vstd::prelude::*;
use vstd::utf8::{
    decode_utf8, encode_scalar, encode_utf8, encode_utf8_decode_utf8, encode_utf8_valid_utf8,
    valid_utf8,
};

verus! {

/// The four bytes `PSEL` that open every container.
pub const MAGIC: u32 = 0x5053454C;

/// Length of the header in bytes.
pub const HEADER_SIZE: usize = 12;

/// Length of one section record in bytes.
pub const SECTION_SIZE: usize = 73;

/// Why bytes were not accepted as a header or a record, or why a record could
/// not be written.
#[derive(Debug, Clone, Copy, PartialEq, Eq, Structural)]
pub enum FormatError {
    /// Fewer bytes than the fixed size of the item.
    TooShort,
    /// The first four bytes are not the magic constant.
    BadMagic,
    /// The type byte is not one of the known codes.
    BadType,
    /// The name field is not UTF-8 once its zero bytes are taken out.
    BadName,
    /// The name does not fit in the name field.
    NameTooLong,
}

/// The kind of payload a section holds.
#[derive(Debug, Clone, Copy, PartialEq, Eq, Structural)]
pub enum SectionType {
    Elf,
    Pe,
    Macho,
}

impl SectionType {
    /// The byte that stands for this type in a record.
    pub open spec fn code(self) -> u8 {
        match self {
            SectionType::Elf => 0,
            SectionType::Pe => 1,
            SectionType::Macho => 2,
        }
    }

    /// The type that a byte stands for, if any.
    pub open spec fn of_code(v: u8) -> Option<SectionType> {
        if v == 0 {
            Some(SectionType::Elf)
        } else if v == 1 {
            Some(SectionType::Pe)
        } else if v == 2 {
            Some(SectionType::Macho)
        } else {
            None
        }
    }

    /// Reads a type byte.
    pub fn from_u8(v: u8) -> (r: Option<SectionType>)
        ensures
            r == Self::of_code(v),
    {
        match v {
            0 => Some(SectionType::Elf),
            1 => Some(SectionType::Pe),
            2 => Some(SectionType::Macho),
            _ => None,
        }
    }

    /// The type byte of this type.
    pub fn to_u8(self) -> (r: u8)
        ensures
            r == self.code(),
    {
        match self {
            SectionType::Elf => 0,
            SectionType::Pe => 1,
            SectionType::Macho => 2,
        }
    }

    /// The conventional upper-case name of this type.
    pub fn name(&self) -> (r: &'static str)
        ensures
            r@ == match *self {
                SectionType::Elf => "ELF"@,
                SectionType::Pe => "PE"@,
                SectionType::Macho => "MACHO"@,
            },
    {
        match self {
            SectionType::Elf => "ELF",
            SectionType::Pe => "PE",
            SectionType::Macho => "MACHO",
        }
    }
}

/// Reading the code of a type gives the type back, and only the three codes
/// are read as a type.
pub proof fn lemma_type_code_roundtrip(t: SectionType, v: u8)
    ensures
        SectionType::of_code(t.code()) == Some(t),
        SectionType::of_code(v) matches Some(u) ==> u.code() == v,
        SectionType::of_code(v) is Some <==> v <= 2,
{
}

/// The header of a container.
#[derive(Debug, Clone, Copy, PartialEq, Eq, Structural)]
pub struct PselfHeader {
    /// Application-defined version number.
    pub version: u32,
    /// Number of section records that follow the header.
    pub section_count: u32,
}

/// The bytes of a header.
pub open spec fn encode_header(h: PselfHeader) -> Seq<u8> {
    be32(MAGIC) + be32(h.version) + be32(h.section_count)
}

/// What a byte string is read as when a header is expected at its start.
pub open spec fn decode_header(bytes: Seq<u8>) -> Result<PselfHeader, FormatError> {
    if bytes.len() < 12 {
        Err(FormatError::TooShort)
    } else if be32_value(bytes.subrange(0, 4)) != MAGIC {
        Err(FormatError::BadMagic)
    } else {
        Ok(
            PselfHeader {
                version: be32_value(bytes.subrange(4, 8)),
                section_count: be32_value(bytes.subrange(8, 12)),
            },
        )
    }
}

impl PselfHeader {
    /// A header with the given version and section count.
    pub fn new(version: u32, section_count: u32) -> (r: PselfHeader)
        ensures
            r.version == version,
            r.section_count == section_count,
    {
        PselfHeader { version, section_count }
    }

    /// Writes the header as its 12 bytes.
    pub fn to_bytes(&self) -> (r: [u8; 12])
        ensures
            r@ == encode_header(*self),
    {
        let m = u32_to_be(MAGIC);
        let v = u32_to_be(self.version);
        let c = u32_to_be(self.section_count);
        let r = [m[0], m[1], m[2], m[3], v[0], v[1], v[2], v[3], c[0], c[1], c[2], c[3]];
        assert(r@ =~= encode_header(*self));
        r
    }

    /// Reads a header from the first 12 bytes of `bytes`.
    ///
    /// Fails with `TooShort` on fewer than 12 bytes and with `BadMagic` when
    /// the first four bytes are not the magic constant; bytes after the twelfth
    /// are not looked at.
    pub fn from_bytes(bytes: &[u8]) -> (r: Result<PselfHeader, FormatError>)
        ensures
            r == decode_header(bytes@),
            bytes@.len() < 12 ==> r == Err::<PselfHeader, FormatError>(FormatError::TooShort),
            bytes@.len() >= 12 && be32_value(bytes@.subrange(0, 4)) != MAGIC ==> r == Err::<
                PselfHeader,
                FormatError,
            >(FormatError::BadMagic),
    {
        if bytes.len() < HEADER_SIZE {
            return Err(FormatError::TooShort);
        }
        let magic = u32_from_be(bytes, 0);
        if magic != MAGIC {
            return Err(FormatError::BadMagic);
        }
        let version = u32_from_be(bytes, 4);
        let section_count = u32_from_be(bytes, 8);
        Ok(PselfHeader { version, section_count })
    }
}

/// Every header is read back from its own bytes, whatever follows them.
pub proof fn lemma_header_roundtrip(h: PselfHeader, rest: Seq<u8>)
    ensures
        encode_header(h).len() == 12,
        decode_header(encode_header(h)) == Ok::<PselfHeader, FormatError>(h),
        decode_header(encode_header(h) + rest) == Ok::<PselfHeader, FormatError>(h),
{
    let b = encode_header(h);
    lemma_be32_value_of_bytes(MAGIC);
    lemma_be32_value_of_bytes(h.version);
    lemma_be32_value_of_bytes(h.section_count);
    assert(b.subrange(0, 4) =~= be32(MAGIC));
    assert(b.subrange(4, 8) =~= be32(h.version));
    assert(b.subrange(8, 12) =~= be32(h.section_count));
    let c = b + rest;
    assert(c.subrange(0, 4) =~= be32(MAGIC));
    assert(c.subrange(4, 8) =~= be32(h.version));
    assert(c.subrange(8, 12) =~= be32(h.section_count));
}

/// One record of the section table.
#[derive(Debug, Clone, PartialEq, Eq)]
pub struct SectionEntry {
    /// The kind of payload.
    pub section_type: SectionType,
    /// The section's name, at most 32 bytes of UTF-8.
    pub name: String,
    /// Where the payload starts, counted from the start of the container.
    pub offset: u32,
    /// Number of payload bytes.
    pub length: u32,
    /// SHA-256 digest of the payload.
    pub hash: [u8; 32],
}

/// What a section record says, as mathematical values.
pub struct SectionEntryView {
    pub section_type: SectionType,
    pub name: Seq<char>,
    pub offset: u32,
    pub length: u32,
    pub hash: Seq<u8>,
}

impl View for SectionEntry {
    type V = SectionEntryView;

    open spec fn view(&self) -> SectionEntryView {
        SectionEntryView {
            section_type: self.section_type,
            name: self.name@,
            offset: self.offset,
            length: self.length,
            hash: self.hash@,
        }
    }
}

/// `n` zero bytes.
pub open spec fn zeros(n: nat) -> Seq<u8> {
    Seq::new(n, |i: int| 0u8)
}

/// `b` without its zero bytes, the others in their order.
pub open spec fn strip_nul(b: Seq<u8>) -> Seq<u8> {
    b.filter(|x: u8| x != 0)
}

/// The 32-byte name field that holds `name`: zero bytes first, then the name.
pub open spec fn name_field(name: Seq<u8>) -> Seq<u8>
    recommends
        name.len() <= 32,
{
    zeros((32 - name.len()) as nat) + name
}

/// Whether a record with these values can be written: the name fits in its
/// field and the digest has its 32 bytes.
pub open spec fn encodable(e: SectionEntryView) -> bool {
    encode_utf8(e.name).len() <= 32 && e.hash.len() == 32
}

/// The bytes of a record.
pub open spec fn encode_section(e: SectionEntryView) -> Seq<u8>
    recommends
        encodable(e),
{
    seq![e.section_type.code()] + name_field(encode_utf8(e.name)) + be32(e.offset) + be32(
        e.length,
    ) + e.hash
}

/// What a byte string is read as when a record is expected at its start.
///
/// Every zero byte of the name field is dropped, wherever it stands, before
/// the rest is read as UTF-8.
pub open spec fn decode_section(bytes: Seq<u8>) -> Result<SectionEntryView, FormatError> {
    if bytes.len() < 73 {
        Err(FormatError::TooShort)
    } else if SectionType::of_code(bytes[0]) is None {
        Err(FormatError::BadType)
    } else if !valid_utf8(strip_nul(bytes.subrange(1, 33))) {
        Err(FormatError::BadName)
    } else {
        Ok(
            SectionEntryView {
                section_type: SectionType::of_code(bytes[0])->0,
                name: decode_utf8(strip_nul(bytes.subrange(1, 33))),
                offset: be32_value(bytes.subrange(33, 37)),
                length: be32_value(bytes.subrange(37, 41)),
                hash: bytes.subrange(41, 73),
            },
        )
    }
}

/// Stripping after appending one byte.
pub proof fn lemma_strip_nul_push(b: Seq<u8>, x: u8)
    ensures
        strip_nul(b.push(x)) == if x == 0 {
            strip_nul(b)
        } else {
            strip_nul(b).push(x)
        },
{
    reveal(Seq::filter);
    assert(b.push(x).drop_last() =~= b);
}

/// Stripping a concatenation strips its two parts.
pub proof fn lemma_strip_nul_concat(a: Seq<u8>, b: Seq<u8>)
    ensures
        strip_nul(a + b) == strip_nul(a) + strip_nul(b),
    decreases b.len(),
{
    if b.len() == 0 {
        reveal(Seq::filter);
        assert(a + b =~= a);
        assert(strip_nul(b) =~= Seq::<u8>::empty());
        assert(strip_nul(a) + strip_nul(b) =~= strip_nul(a));
    } else {
        let head = b.drop_last();
        let x = b.last();
        assert(b =~= head.push(x));
        assert(a + b =~= (a + head).push(x));
        lemma_strip_nul_concat(a, head);
        lemma_strip_nul_push(a + head, x);
        lemma_strip_nul_push(head, x);
        assert(strip_nul(a) + strip_nul(head).push(x) =~= (strip_nul(a) + strip_nul(head)).push(x));
    }
}

/// Nothing is left of a run of zero bytes.
pub proof fn lemma_strip_nul_zeros(n: nat)
    ensures
        strip_nul(zeros(n)) == Seq::<u8>::empty(),
    decreases n,
{
    if n == 0 {
        reveal(Seq::filter);
        assert(zeros(n) =~= Seq::<u8>::empty());
    } else {
        let m = (n - 1) as nat;
        assert(zeros(n) =~= zeros(m).push(0u8));
        lemma_strip_nul_zeros(m);
        lemma_strip_nul_push(zeros(m), 0u8);
    }
}

/// Bytes without a zero byte among them are left as they are.
pub proof fn lemma_strip_nul_clean(b: Seq<u8>)
    requires
        forall|i: int| 0 <= i < b.len() ==> b[i] != 0,
    ensures
        strip_nul(b) == b,
    decreases b.len(),
{
    if b.len() == 0 {
        reveal(Seq::filter);
    } else {
        let head = b.drop_last();
        assert(b =~= head.push(b.last()));
        lemma_strip_nul_clean(head);
        lemma_strip_nul_push(head, b.last());
    }
}

impl SectionEntry {
    /// Writes the record as its 73 bytes.
    ///
    /// Fails with `NameTooLong` when the name is longer than 32 bytes, and on
    /// no other record.
    pub fn to_bytes(&self) -> (r: Result<Vec<u8>, FormatError>)
        ensures
            match r {
                Ok(v) => encode_utf8(self@.name).len() <= 32 && v@ == encode_section(self@),
                Err(e) => encode_utf8(self@.name).len() > 32 && e == FormatError::NameTooLong,
            },
    {
        let name_bytes = self.name.as_str().as_bytes();
        if name_bytes.len() > 32 {
            return Err(FormatError::NameTooLong);
        }
        let mut buf: Vec<u8> = Vec::with_capacity(SECTION_SIZE);
        buf.push(self.section_type.to_u8());
        let pad: usize = 32 - name_bytes.len();
        let mut i: usize = 0;
        while i < pad
            invariant
                i <= pad,
                buf@ == seq![self.section_type.code()] + zeros(i as nat),
            decreases pad - i,
        {
            buf.push(0u8);
            i += 1;
            assert(buf@ =~= seq![self.section_type.code()] + zeros(i as nat));
        }
        buf.extend_from_slice(name_bytes);
        let offset = u32_to_be(self.offset);
        buf.extend_from_slice(offset.as_slice());
        let length = u32_to_be(self.length);
        buf.extend_from_slice(length.as_slice());
        buf.extend_from_slice(self.hash.as_slice());
        assert(buf@ =~= encode_section(self@));
        Ok(buf)
    }

    /// Reads a record from the first 73 bytes of `bytes`.
    ///
    /// Fails with `TooShort` on fewer than 73 bytes, else with `BadType` when
    /// the type byte is none of 0, 1, 2, else with `BadName` when the name
    /// field without its zero bytes is not UTF-8.
    pub fn from_bytes(bytes: &[u8]) -> (r: Result<SectionEntry, FormatError>)
        ensures
            match r {
                Ok(e) => decode_section(bytes@) == Ok::<SectionEntryView, FormatError>(e@),
                Err(x) => decode_section(bytes@) == Err::<SectionEntryView, FormatError>(x),
            },
            bytes@.len() < 73 ==> r == Err::<SectionEntry, FormatError>(FormatError::TooShort),
            bytes@.len() >= 73 && bytes@[0] > 2 ==> r == Err::<SectionEntry, FormatError>(
                FormatError::BadType,
            ),
    {
        if bytes.len() < SECTION_SIZE {
            return Err(FormatError::TooShort);
        }
        let section_type = match SectionType::from_u8(bytes[0]) {
            Some(t) => t,
            None => {
                return Err(FormatError::BadType);
            },
        };
        let mut stripped: Vec<u8> = Vec::new();
        let mut i: usize = 1;
        while i < 33
            invariant
                1 <= i <= 33,
                bytes.len() >= 73,
                stripped@ == strip_nul(bytes@.subrange(1, i as int)),
            decreases 33 - i,
        {
            proof {
                lemma_strip_nul_push(bytes@.subrange(1, i as int), bytes@[i as int]);
                assert(bytes@.subrange(1, i + 1) =~= bytes@.subrange(1, i as int).push(
                    bytes@[i as int],
                ));
            }
            if bytes[i] != 0 {
                stripped.push(bytes[i]);
            }
            i += 1;
        }
        let name = match string_from_utf8(stripped) {
            Ok(s) => s,
            Err(_) => {
                return Err(FormatError::BadName);
            },
        };
        let offset = u32_from_be(bytes, 33);
        let length = u32_from_be(bytes, 37);
        let mut hash = [0u8; 32];
        let mut k: usize = 0;
        while k < 32
            invariant
                k <= 32,
                bytes.len() >= 73,
                forall|j: int| 0 <= j < k ==> hash@[j] == bytes@[41 + j],
            decreases 32 - k,
        {
            hash[k] = bytes[41 + k];
            k += 1;
        }
        let entry = SectionEntry { section_type, name, offset, length, hash };
        assert(entry@.hash =~= bytes@.subrange(41, 73));
        Ok(entry)
    }
}

/// Where the fields of a record lie in its bytes, whatever follows them.
pub proof fn lemma_section_layout(e: SectionEntryView, rest: Seq<u8>)
    requires
        encodable(e),
    ensures
        encode_section(e).len() == 73,
        (encode_section(e) + rest)[0] == e.section_type.code(),
        (encode_section(e) + rest).subrange(1, 33) == name_field(encode_utf8(e.name)),
        (encode_section(e) + rest).subrange(33, 37) == be32(e.offset),
        (encode_section(e) + rest).subrange(37, 41) == be32(e.length),
        (encode_section(e) + rest).subrange(41, 73) == e.hash,
{
    let name = name_field(encode_utf8(e.name));
    let c = encode_section(e) + rest;
    assert(name.len() == 32);
    assert(be32(e.offset).len() == 4);
    assert(be32(e.length).len() == 4);
    assert(c.subrange(1, 33) =~= name);
    assert(c.subrange(33, 37) =~= be32(e.offset));
    assert(c.subrange(37, 41) =~= be32(e.length));
    assert(c.subrange(41, 73) =~= e.hash);
}

/// The name field of a name without zero bytes gives the name back when its
/// zero bytes are dropped.
pub proof fn lemma_name_field_stripped(name: Seq<u8>)
    requires
        name.len() <= 32,
        forall|i: int| 0 <= i < name.len() ==> name[i] != 0,
    ensures
        strip_nul(name_field(name)) == name,
{
    let pad = zeros((32 - name.len()) as nat);
    lemma_strip_nul_concat(pad, name);
    lemma_strip_nul_zeros((32 - name.len()) as nat);
    lemma_strip_nul_clean(name);
    assert(Seq::<u8>::empty() + name =~= name);
}

/// A record whose name fits in 32 bytes and holds no zero byte is read back
/// from its own bytes, whatever follows them.
pub proof fn lemma_section_roundtrip(e: SectionEntryView, rest: Seq<u8>)
    requires
        encodable(e),
        forall|i: int| 0 <= i < encode_utf8(e.name).len() ==> encode_utf8(e.name)[i] != 0,
    ensures
        encode_section(e).len() == 73,
        decode_section(encode_section(e)) == Ok::<SectionEntryView, FormatError>(e),
        decode_section(encode_section(e) + rest) == Ok::<SectionEntryView, FormatError>(e),
{
    lemma_be32_value_of_bytes(e.offset);
    lemma_be32_value_of_bytes(e.length);
    lemma_type_code_roundtrip(e.section_type, 0);
    lemma_name_field_stripped(encode_utf8(e.name));
    encode_utf8_valid_utf8(e.name);
    encode_utf8_decode_utf8(e.name);
    lemma_section_layout(e, rest);
    lemma_section_layout(e, Seq::empty());
    assert(encode_section(e) + Seq::<u8>::empty() =~= encode_section(e));
}

/// None of the bytes that UTF-8 writes a scalar with is zero, but for the
/// one byte of the scalar zero.
proof fn lemma_scalar_bytes(v: u32)
    by (bit_vector)
    ensures
        0 < v <= 0x7f ==> (v & 0x7f) as u8 != 0,
        0xc0u8 | ((v >> 6) & 0x1f) as u8 != 0,
        0xe0u8 | ((v >> 12) & 0x0f) as u8 != 0,
        0xf0u8 | ((v >> 18) & 0x07) as u8 != 0,
        0x80u8 | (v & 0x3f) as u8 != 0,
        0x80u8 | ((v >> 6) & 0x3f) as u8 != 0,
        0x80u8 | ((v >> 12) & 0x3f) as u8 != 0,
{
}

/// A text that does not hold the character U+0000 has no zero byte among its
/// UTF-8 bytes.
pub proof fn lemma_text_without_nul(name: Seq<char>)
    requires
        forall|i: int| 0 <= i < name.len() ==> name[i] != '\0',
    ensures
        forall|i: int| 0 <= i < encode_utf8(name).len() ==> encode_utf8(name)[i] != 0,
    decreases name.len(),
{
    if name.len() > 0 {
        let first = encode_scalar(name[0] as u32);
        let rest = name.drop_first();
        assert(name[0] != '\0');
        let v = name[0] as u32;
        assert(v != 0) by {
            vstd::utf8::char_u32_cast(name[0], v);
            vstd::utf8::char_u32_cast('\0', 0u32);
        }
        lemma_scalar_bytes(v);
        assert forall|i: int| 0 <= i < first.len() implies first[i] != 0 by {
            if vstd::utf8::has_width_1_encoding(v) {
                assert(first[0] == vstd::utf8::leading_byte_width_1(v));
            } else if vstd::utf8::has_width_2_encoding(v) {
                assert(first[0] == vstd::utf8::leading_byte_width_2(v));
                assert(first[1] == vstd::utf8::last_continuation_byte(v));
            } else if vstd::utf8::has_width_3_encoding(v) {
                assert(first[0] == vstd::utf8::leading_byte_width_3(v));
                assert(first[1] == vstd::utf8::second_last_continuation_byte(v));
                assert(first[2] == vstd::utf8::last_continuation_byte(v));
            } else {
                assert(first[0] == vstd::utf8::leading_byte_width_4(v));
                assert(first[1] == vstd::utf8::third_last_continuation_byte(v));
                assert(first[2] == vstd::utf8::second_last_continuation_byte(v));
                assert(first[3] == vstd::utf8::last_continuation_byte(v));
            }
        }
        assert forall|i: int| 0 <= i < rest.len() implies rest[i] != '\0' by {
            assert(rest[i] == name[i + 1]);
        }
        lemma_text_without_nul(rest);
        assert forall|i: int| 0 <= i < encode_utf8(name).len() implies encode_utf8(name)[i]
            != 0 by {
            if i >= first.len() {
                assert(encode_utf8(name)[i] == encode_utf8(rest)[i - first.len()]);
            } else {
                assert(encode_utf8(name)[i] == first[i]);
            }
        }
    }
}

/// A record whose name fits in 32 bytes and does not hold the character
/// U+0000 is read back from its own bytes, whatever follows them.
pub proof fn lemma_section_roundtrip_of_text(e: SectionEntryView, rest: Seq<u8>)
    requires
        encodable(e),
        forall|i: int| 0 <= i < e.name.len() ==> e.name[i] != '\0',
    ensures
        decode_section(encode_section(e)) == Ok::<SectionEntryView, FormatError>(e),
        decode_section(encode_section(e) + rest) == Ok::<SectionEntryView, FormatError>(e),
{
    lemma_text_without_nul(e.name);
    lemma_section_roundtrip(e, rest);
}

} // verus!
