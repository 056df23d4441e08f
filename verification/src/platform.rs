//! The host platform and the section type that each platform can load.

use crate::format::SectionType;
use crate::text::str_eq;
use vstd::prelude::*;

verus! {

/// The operating-system family of a host.
#[derive(Debug, Clone, Copy, PartialEq, Eq, Structural)]
pub enum KernelType {
    Linux,
    Windows,
    MacOS,
    Unknown,
}

/// The family that a target's operating-system name stands for: `linux`,
/// `windows` and `macos` name their families, every other name is unknown.
pub open spec fn kernel_of(target_os: Seq<char>) -> KernelType {
    if target_os == "windows"@ {
        KernelType::Windows
    } else if target_os == "linux"@ {
        KernelType::Linux
    } else if target_os == "macos"@ {
        KernelType::MacOS
    } else {
        KernelType::Unknown
    }
}

/// The one platform that loads sections of type `t`.
pub open spec fn native_platform(t: SectionType) -> KernelType {
    match t {
        SectionType::Elf => KernelType::Linux,
        SectionType::Pe => KernelType::Windows,
        SectionType::Macho => KernelType::MacOS,
    }
}

/// The one section type that platform `k` loads, if it loads any.
pub open spec fn native_section(k: KernelType) -> Option<SectionType> {
    match k {
        KernelType::Linux => Some(SectionType::Elf),
        KernelType::Windows => Some(SectionType::Pe),
        KernelType::MacOS => Some(SectionType::Macho),
        KernelType::Unknown => None,
    }
}

/// Whether platform `k` loads sections of type `t`.
pub open spec fn compatible(t: SectionType, k: KernelType) -> bool {
    native_platform(t) == k
}

/// Section types and known platforms are paired one to one, and the unknown
/// platform loads nothing.
pub proof fn lemma_compatibility_is_one_to_one(t: SectionType, u: SectionType, k: KernelType, l: KernelType)
    ensures
        compatible(t, k) <==> native_section(k) == Some(t),
        compatible(t, k) && compatible(u, k) ==> t == u,
        compatible(t, k) && compatible(t, l) ==> k == l,
        k != KernelType::Unknown ==> exists|v: SectionType| compatible(v, k),
        !compatible(t, KernelType::Unknown),
{
    if k != KernelType::Unknown {
        assert(compatible(native_section(k)->0, k));
    }
}

/// The three family names are three different texts.
pub proof fn lemma_os_names_differ()
    ensures
        "linux"@ != "windows"@,
        "linux"@ != "macos"@,
        "windows"@ != "macos"@,
        kernel_of("linux"@) == KernelType::Linux,
        kernel_of("windows"@) == KernelType::Windows,
        kernel_of("macos"@) == KernelType::MacOS,
{
    reveal_strlit("linux");
    reveal_strlit("windows");
    reveal_strlit("macos");
    assert("linux"@.len() == 5);
    assert("windows"@.len() == 7);
    assert("macos"@[0] == 'm');
    assert("linux"@[0] == 'l');
}

/// The platform family of a host, from the operating-system name of its
/// build target.
pub fn detect_kernel(target_os: &str) -> (r: KernelType)
    ensures
        r == kernel_of(target_os@),
{
    if str_eq(target_os, "windows") {
        KernelType::Windows
    } else if str_eq(target_os, "linux") {
        KernelType::Linux
    } else if str_eq(target_os, "macos") {
        KernelType::MacOS
    } else {
        KernelType::Unknown
    }
}

/// Whether platform `k` loads sections of type `t`.
pub fn is_compatible_with(t: SectionType, k: KernelType) -> (r: bool)
    ensures
        r == compatible(t, k),
{
    match k {
        KernelType::Linux => t == SectionType::Elf,
        KernelType::Windows => t == SectionType::Pe,
        KernelType::MacOS => t == SectionType::Macho,
        KernelType::Unknown => false,
    }
}

} // verus!
