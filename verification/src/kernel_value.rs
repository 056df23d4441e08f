//! A checksum of raw section bytes, read as machine words of the host kernel.
//!
//! The bytes are cut into words of the kernel's word size; what is left over
//! at the end is ignored. Each word is written into the front of an 8-byte
//! buffer filled with zeros, the buffer is read as a 64-bit number in the
//! kernel's byte order, and the numbers are added modulo 2^64.

use crate::modular::lemma_wrapping_step;
use crate::platform::{detect_kernel, kernel_of, KernelType};
use vstd::prelude::*;
use vstd::slice::slice_subrange;

verus! {

/// Byte order of a machine word.
#[derive(Debug, Clone, Copy, PartialEq, Eq, Structural)]
pub enum Endian {
    Little,
    Big,
}

/// Size of a machine word.
#[derive(Debug, Clone, Copy, PartialEq, Eq, Structural)]
pub enum WordSize {
    Bits32,
    Bits64,
}

/// How a kernel lays out the integers of its executables.
#[derive(Debug, Clone, Copy, PartialEq, Eq, Structural)]
pub struct KernelExecIntSpec {
    pub endian: Endian,
    pub word_size: WordSize,
    pub signed: bool,
}

/// The integer layout of each kernel: unsigned little-endian words, of 64
/// bits on the known kernels and of 32 bits on an unknown one.
pub open spec fn int_spec_of(kernel: KernelType) -> KernelExecIntSpec {
    KernelExecIntSpec {
        endian: Endian::Little,
        word_size: if kernel == KernelType::Unknown {
            WordSize::Bits32
        } else {
            WordSize::Bits64
        },
        signed: false,
    }
}

/// Number of bytes in a word.
pub open spec fn word_len(w: WordSize) -> nat {
    match w {
        WordSize::Bits32 => 4,
        WordSize::Bits64 => 8,
    }
}

/// `chunk` followed by as many zero bytes as bring it to 8 bytes.
pub open spec fn padded(chunk: Seq<u8>) -> Seq<u8>
    recommends
        chunk.len() <= 8,
{
    chunk + Seq::new((8 - chunk.len()) as nat, |i: int| 0u8)
}

/// The number that 8 bytes hold, least significant byte first.
pub open spec fn le64(b: Seq<u8>) -> nat
    recommends
        b.len() == 8,
{
    (b[0] + b[1] * 0x100 + b[2] * 0x1_0000 + b[3] * 0x100_0000 + b[4] * 0x1_0000_0000 + b[5]
        * 0x100_0000_0000 + b[6] * 0x1_0000_0000_0000 + b[7] * 0x100_0000_0000_0000) as nat
}

/// The number that 8 bytes hold, most significant byte first.
pub open spec fn be64(b: Seq<u8>) -> nat
    recommends
        b.len() == 8,
{
    (b[7] + b[6] * 0x100 + b[5] * 0x1_0000 + b[4] * 0x100_0000 + b[3] * 0x1_0000_0000 + b[2]
        * 0x100_0000_0000 + b[1] * 0x1_0000_0000_0000 + b[0] * 0x100_0000_0000_0000) as nat
}

/// The number that one word contributes to the checksum.
pub open spec fn word_value(chunk: Seq<u8>, endian: Endian) -> nat
    recommends
        chunk.len() <= 8,
{
    match endian {
        Endian::Little => le64(padded(chunk)),
        Endian::Big => be64(padded(chunk)),
    }
}

/// The sum of the first `n` words of `bytes`.
pub open spec fn words_sum(bytes: Seq<u8>, spec: KernelExecIntSpec, n: nat) -> nat
    decreases n,
{
    if n == 0 {
        0
    } else {
        let w = word_len(spec.word_size);
        words_sum(bytes, spec, (n - 1) as nat) + word_value(
            bytes.subrange((n - 1) * w, (n * w) as int),
            spec.endian,
        )
    }
}

/// The checksum of `bytes` under the layout `spec`.
pub open spec fn kernel_value(bytes: Seq<u8>, spec: KernelExecIntSpec) -> nat {
    words_sum(bytes, spec, bytes.len() / word_len(spec.word_size)) % 0x1_0000_0000_0000_0000
}

/// The integer layout of a kernel.
pub fn get_kernel_exec_int_spec(kernel: KernelType) -> (r: KernelExecIntSpec)
    ensures
        r == int_spec_of(kernel),
{
    match kernel {
        KernelType::Windows => KernelExecIntSpec {
            endian: Endian::Little,
            word_size: WordSize::Bits64,
            signed: false,
        },
        KernelType::Linux => KernelExecIntSpec {
            endian: Endian::Little,
            word_size: WordSize::Bits64,
            signed: false,
        },
        KernelType::MacOS => KernelExecIntSpec {
            endian: Endian::Little,
            word_size: WordSize::Bits64,
            signed: false,
        },
        KernelType::Unknown => KernelExecIntSpec {
            endian: Endian::Little,
            word_size: WordSize::Bits32,
            signed: false,
        },
    }
}

/// Copies at most 8 bytes into the front of an 8-byte buffer of zeros.
pub fn pad_to_8(slice: &[u8]) -> (r: [u8; 8])
    requires
        slice.len() <= 8,
    ensures
        r@ == padded(slice@),
{
    let mut buf = [0u8; 8];
    let mut i: usize = 0;
    while i < slice.len()
        invariant
            i <= slice.len() <= 8,
            forall|j: int| 0 <= j < i ==> buf@[j] == slice@[j],
            forall|j: int| i <= j < 8 ==> buf@[j] == 0,
        decreases slice.len() - i,
    {
        buf[i] = slice[i];
        i += 1;
    }
    assert(buf@ =~= padded(slice@));
    buf
}

/// Reads 8 bytes as a number, least significant byte first.
pub fn u64_from_le(b: &[u8; 8]) -> (r: u64)
    ensures
        r == le64(b@),
{
    (b[0] as u64) + (b[1] as u64) * 0x100 + (b[2] as u64) * 0x1_0000 + (b[3] as u64) * 0x100_0000
        + (b[4] as u64) * 0x1_0000_0000 + (b[5] as u64) * 0x100_0000_0000 + (b[6] as u64)
        * 0x1_0000_0000_0000 + (b[7] as u64) * 0x100_0000_0000_0000
}

/// Reads 8 bytes as a number, most significant byte first.
pub fn u64_from_be(b: &[u8; 8]) -> (r: u64)
    ensures
        r == be64(b@),
{
    (b[7] as u64) + (b[6] as u64) * 0x100 + (b[5] as u64) * 0x1_0000 + (b[4] as u64) * 0x100_0000
        + (b[3] as u64) * 0x1_0000_0000 + (b[2] as u64) * 0x100_0000_0000 + (b[1] as u64)
        * 0x1_0000_0000_0000 + (b[0] as u64) * 0x100_0000_0000_0000
}

/// The number that the word of `bytes` starting at `start` contributes.
fn word_at(bytes: &[u8], start: usize, word: usize, endian: Endian) -> (r: u64)
    requires
        word <= 8,
        start + word <= bytes.len(),
    ensures
        r == word_value(bytes@.subrange(start as int, start + word), endian),
{
    let chunk = slice_subrange(bytes, start, start + word);
    let buf = pad_to_8(chunk);
    match endian {
        Endian::Little => u64_from_le(&buf),
        Endian::Big => u64_from_be(&buf),
    }
}

/// The checksum of `bytes` under the layout `spec`.
pub fn compute_kernel_value(bytes: &[u8], spec: &KernelExecIntSpec) -> (r: u64)
    ensures
        r == kernel_value(bytes@, *spec),
{
    let word: usize = match spec.word_size {
        WordSize::Bits32 => 4,
        WordSize::Bits64 => 8,
    };
    let chunks: usize = bytes.len() / word;
    let mut acc: u64 = 0;
    let mut i: usize = 0;
    let mut start: usize = 0;
    assert(chunks * word <= bytes.len()) by (nonlinear_arith)
        requires
            chunks == bytes.len() / word,
            word > 0,
    ;
    while i < chunks
        invariant
            i <= chunks,
            word == word_len(spec.word_size),
            start == i * word,
            chunks * word <= bytes.len(),
            acc == words_sum(bytes@, *spec, i as nat) % 0x1_0000_0000_0000_0000,
        decreases chunks - i,
    {
        assert((i + 1) * word == i * word + word && (i + 1) * word <= chunks * word)
            by (nonlinear_arith)
            requires
                i < chunks,
                word > 0,
        ;
        let val = word_at(bytes, start, word, spec.endian);
        proof {
            lemma_wrapping_step(words_sum(bytes@, *spec, i as nat), acc, val);
            assert(words_sum(bytes@, *spec, (i + 1) as nat) == words_sum(bytes@, *spec, i as nat)
                + val);
        }
        acc = acc.wrapping_add(val);
        i += 1;
        start = start + word;
    }
    acc
}

/// The checksum of the bytes of a section that was read on a host, from the
/// operating-system name of the host's build target.
pub fn calculate_kernel_section_value(target_os: &str, bytes: &[u8]) -> (r: u64)
    ensures
        r == kernel_value(bytes@, int_spec_of(kernel_of(target_os@))),
{
    let kernel = detect_kernel(target_os);
    let spec = get_kernel_exec_int_spec(kernel);
    compute_kernel_value(bytes, &spec)
}

} // verus!
