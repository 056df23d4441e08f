use pself::arch::{check_x86_little_endian, get_x86_arch_info, ArchError};
use pself::kernel_value::{
    calculate_kernel_section_value, compute_kernel_value, get_kernel_exec_int_spec, pad_to_8,
    u64_from_be, u64_from_le, Endian, KernelExecIntSpec, WordSize,
};
use pself::platform::{detect_kernel, is_compatible_with, KernelType};
use pself::format::SectionType;

fn host_is_little_endian() -> bool {
    1u16.to_ne_bytes()[0] == 1
}

#[test]
fn test_check_x86_little_endian() {
    match check_x86_little_endian("x86_64", host_is_little_endian()) {
        Ok(()) => println!("X86 Little Endian supported."),
        Err(e) => match e {
            ArchError::NotX86 => panic!("Arch not supported: Not x86"),
            ArchError::NotLittleEndian => panic!("Arch not supported: Not Little Endian"),
        },
    }
}

#[test]
fn test_pad_to_8() {
    let data = [1, 2, 3];
    let padded = pad_to_8(&data);
    assert_eq!(&padded[..3], &data);
    assert_eq!(padded[3], 0);
}

#[test]
fn test_compute_kernel_value_32bit_little() {
    let spec = KernelExecIntSpec {
        endian: Endian::Little,
        word_size: WordSize::Bits32,
        signed: false,
    };
    let data = [1, 0, 0, 0, 2, 0, 0, 0]; // 1 + 2 = 3
    let result = compute_kernel_value(&data, &spec);
    assert_eq!(result, 3);
}

#[test]
fn test_compute_kernel_value_64bit_little() {
    let spec = KernelExecIntSpec {
        endian: Endian::Little,
        word_size: WordSize::Bits64,
        signed: false,
    };
    let data = [1, 0, 0, 0, 0, 0, 0, 0, 2, 0, 0, 0, 0, 0, 0, 0]; // 1 + 2 = 3
    let result = compute_kernel_value(&data, &spec);
    assert_eq!(result, 3);
}

#[test]
fn arch_check_names_each_failure() {
    assert_eq!(check_x86_little_endian("x86", true), Ok(()));
    assert_eq!(check_x86_little_endian("x86_64", true), Ok(()));
    assert_eq!(check_x86_little_endian("aarch64", true), Err(ArchError::NotX86));
    assert_eq!(check_x86_little_endian("x86_64", false), Err(ArchError::NotLittleEndian));
    assert_eq!(check_x86_little_endian("mips", false), Err(ArchError::NotX86));
    assert_eq!(check_x86_little_endian("", true), Err(ArchError::NotX86));
    assert_eq!(check_x86_little_endian("x86_6", true), Err(ArchError::NotX86));
}

#[test]
fn arch_info_line() {
    assert_eq!(
        get_x86_arch_info("x86_64", true),
        Ok("x86 architecture detected, Little Endian confirmed.")
    );
    assert_eq!(get_x86_arch_info("arm", true), Err(ArchError::NotX86));
    assert_eq!(get_x86_arch_info("x86", false), Err(ArchError::NotLittleEndian));
}

#[test]
fn kernel_from_target_name() {
    assert_eq!(detect_kernel("linux"), KernelType::Linux);
    assert_eq!(detect_kernel("windows"), KernelType::Windows);
    assert_eq!(detect_kernel("macos"), KernelType::MacOS);
    assert_eq!(detect_kernel("freebsd"), KernelType::Unknown);
    assert_eq!(detect_kernel("Linux"), KernelType::Unknown);
    assert_eq!(detect_kernel(""), KernelType::Unknown);
}

#[test]
fn each_platform_loads_one_type() {
    let types = [SectionType::Elf, SectionType::Pe, SectionType::Macho];
    let kernels = [KernelType::Linux, KernelType::Windows, KernelType::MacOS];
    for (i, t) in types.iter().enumerate() {
        for (j, k) in kernels.iter().enumerate() {
            assert_eq!(is_compatible_with(*t, *k), i == j);
        }
        assert!(!is_compatible_with(*t, KernelType::Unknown));
    }
}

#[test]
fn int_spec_per_kernel() {
    let known = KernelExecIntSpec { endian: Endian::Little, word_size: WordSize::Bits64, signed: false };
    let unknown = KernelExecIntSpec { endian: Endian::Little, word_size: WordSize::Bits32, signed: false };
    assert_eq!(get_kernel_exec_int_spec(KernelType::Linux), known);
    assert_eq!(get_kernel_exec_int_spec(KernelType::Windows), known);
    assert_eq!(get_kernel_exec_int_spec(KernelType::MacOS), known);
    assert_eq!(get_kernel_exec_int_spec(KernelType::Unknown), unknown);
}

#[test]
fn pad_to_8_edges() {
    assert_eq!(pad_to_8(&[]), [0u8; 8]);
    assert_eq!(pad_to_8(&[9, 8, 7, 6, 5, 4, 3, 2]), [9, 8, 7, 6, 5, 4, 3, 2]);
    assert_eq!(pad_to_8(&[0xff]), [0xff, 0, 0, 0, 0, 0, 0, 0]);
}

#[test]
fn eight_bytes_as_numbers() {
    let b = [0x01, 0x02, 0x03, 0x04, 0x05, 0x06, 0x07, 0x08];
    assert_eq!(u64_from_le(&b), 0x0807060504030201);
    assert_eq!(u64_from_be(&b), 0x0102030405060708);
    assert_eq!(u64_from_le(&[0xff; 8]), u64::MAX);
    assert_eq!(u64_from_be(&[0xff; 8]), u64::MAX);
    assert_eq!(u64_from_le(&b), u64::from_le_bytes(b));
    assert_eq!(u64_from_be(&b), u64::from_be_bytes(b));
}

#[test]
fn kernel_value_big_endian_words_sit_in_the_high_half() {
    let spec = KernelExecIntSpec { endian: Endian::Big, word_size: WordSize::Bits32, signed: false };
    // each 4-byte word fills the front of the 8-byte buffer
    let data = [0, 0, 0, 1, 0, 0, 0, 2];
    assert_eq!(compute_kernel_value(&data, &spec), 3u64 << 32);
    let spec64 = KernelExecIntSpec { endian: Endian::Big, word_size: WordSize::Bits64, signed: false };
    assert_eq!(compute_kernel_value(&data, &spec64), (1u64 << 32) + 2);
}

#[test]
fn kernel_value_ignores_a_trailing_partial_word() {
    let spec = KernelExecIntSpec { endian: Endian::Little, word_size: WordSize::Bits32, signed: false };
    assert_eq!(compute_kernel_value(&[5, 0, 0, 0, 9, 9, 9], &spec), 5);
    assert_eq!(compute_kernel_value(&[1, 2, 3], &spec), 0);
    assert_eq!(compute_kernel_value(&[], &spec), 0);
}

#[test]
fn kernel_value_wraps_modulo_two_to_the_64() {
    let spec = KernelExecIntSpec { endian: Endian::Little, word_size: WordSize::Bits64, signed: false };
    let mut data = vec![0xffu8; 8];
    data.extend_from_slice(&[2, 0, 0, 0, 0, 0, 0, 0]);
    assert_eq!(compute_kernel_value(&data, &spec), 1);
}

#[test]
fn section_value_uses_the_kernel_word_size() {
    let data = [1, 0, 0, 0, 2, 0, 0, 0];
    // known kernels read one 64-bit word, an unknown one two 32-bit words
    assert_eq!(calculate_kernel_section_value("linux", &data), 1 + (2u64 << 32));
    assert_eq!(calculate_kernel_section_value("windows", &data), 1 + (2u64 << 32));
    assert_eq!(calculate_kernel_section_value("macos", &data), 1 + (2u64 << 32));
    assert_eq!(calculate_kernel_section_value("plan9", &data), 3);
}
