//! The check that a host is a little-endian x86 machine.

use crate::text::str_eq;
use vstd::prelude::*;

verus! {

/// Why a host is not supported.
#[derive(Debug, Clone, Copy, PartialEq, Eq, Structural)]
pub enum ArchError {
    /// The architecture is neither `x86` nor `x86_64`.
    NotX86,
    /// The host stores the most significant byte first.
    NotLittleEndian,
}

/// Whether an architecture name is one of the two x86 names.
pub open spec fn is_x86(target_arch: Seq<char>) -> bool {
    target_arch == "x86"@ || target_arch == "x86_64"@
}

/// The verdict on a host of the given architecture and byte order. A host
/// that fails both checks is reported as not x86.
pub open spec fn arch_verdict(target_arch: Seq<char>, little_endian: bool) -> Result<(), ArchError> {
    if !is_x86(target_arch) {
        Err(ArchError::NotX86)
    } else if !little_endian {
        Err(ArchError::NotLittleEndian)
    } else {
        Ok(())
    }
}

/// Checks that a host is a little-endian x86 machine, from the architecture
/// name of its build target and its byte order.
pub fn check_x86_little_endian(target_arch: &str, little_endian: bool) -> (r: Result<(), ArchError>)
    ensures
        r == arch_verdict(target_arch@, little_endian),
{
    if !(str_eq(target_arch, "x86") || str_eq(target_arch, "x86_64")) {
        return Err(ArchError::NotX86);
    }
    if !little_endian {
        return Err(ArchError::NotLittleEndian);
    }
    Ok(())
}

/// A line that describes a supported host, or why the host is not supported.
pub fn get_x86_arch_info(target_arch: &str, little_endian: bool) -> (r: Result<&'static str, ArchError>)
    ensures
        match r {
            Ok(s) => arch_verdict(target_arch@, little_endian) is Ok && s@
                == "x86 architecture detected, Little Endian confirmed."@,
            Err(e) => arch_verdict(target_arch@, little_endian) == Err::<(), ArchError>(e),
        },
{
    match check_x86_little_endian(target_arch, little_endian) {
        Ok(_) => Ok("x86 architecture detected, Little Endian confirmed."),
        Err(e) => Err(e),
    }
}

} // verus!
