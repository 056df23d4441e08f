use pself::format::{FormatError, PselfHeader, SectionEntry, SectionType};
use pself::runner::{
    run_pself, suffix_of, IntegrityError, PselfError, PselfRunner, RangeError, RunState,
    SectionStatus, SelectionError,
};

const HELLO_WORLD_SHA256: [u8; 32] = [
    0xb9, 0x4d, 0x27, 0xb9, 0x93, 0x4d, 0x3e, 0x08, 0xa5, 0x2e, 0x52, 0xd7, 0xda, 0x7d, 0xab, 0xfa,
    0xc4, 0x84, 0xef, 0xe3, 0x7a, 0x53, 0x80, 0xee, 0x90, 0x88, 0xf7, 0xac, 0xe2, 0xef, 0xcd, 0xe9,
];

const EMPTY_SHA256: [u8; 32] = [
    0xe3, 0xb0, 0xc4, 0x42, 0x98, 0xfc, 0x1c, 0x14, 0x9a, 0xfb, 0xf4, 0xc8, 0x99, 0x6f, 0xb9, 0x24,
    0x27, 0xae, 0x41, 0xe4, 0x64, 0x9b, 0x93, 0x4c, 0xa4, 0x95, 0x99, 0x1b, 0x78, 0x52, 0xb8, 0x55,
];

/// Builds a container whose payloads follow the table, one after the other.
fn container(sections: &[(SectionType, &str, &[u8])]) -> Vec<u8> {
    let mut data = PselfHeader::new(1, sections.len() as u32).to_bytes().to_vec();
    let mut offset = 12 + 73 * sections.len();
    let mut payloads = Vec::new();
    for (t, name, content) in sections {
        let e = SectionEntry {
            section_type: *t,
            name: name.to_string(),
            offset: offset as u32,
            length: content.len() as u32,
            hash: SectionEntry::compute_hash(content),
        };
        data.extend_from_slice(&e.to_bytes().unwrap());
        payloads.extend_from_slice(content);
        offset += content.len();
    }
    data.extend_from_slice(&payloads);
    data
}

#[test]
fn digest_known_values() {
    assert_eq!(SectionEntry::compute_hash(b"hello world"), HELLO_WORLD_SHA256);
    assert_eq!(SectionEntry::compute_hash(b""), EMPTY_SHA256);
}

#[test]
fn verify_hash_detects_a_changed_payload() {
    let e = SectionEntry {
        section_type: SectionType::Elf,
        name: "text".to_string(),
        offset: 0,
        length: 11,
        hash: HELLO_WORLD_SHA256,
    };
    assert!(e.verify_hash(b"hello world"));
    assert!(!e.verify_hash(b"hello worle"));
    assert!(!e.verify_hash(b""));
    assert!(e.matches_digest(&HELLO_WORLD_SHA256));
    assert!(!e.matches_digest(&EMPTY_SHA256));
}

#[test]
fn bounds_are_checked_against_the_whole_buffer() {
    let e = SectionEntry {
        section_type: SectionType::Elf,
        name: "t".to_string(),
        offset: 10,
        length: 5,
        hash: [0; 32],
    };
    assert!(e.in_bounds(15));
    assert!(e.in_bounds(16));
    assert!(!e.in_bounds(14));
    let big = SectionEntry { offset: u32::MAX, length: u32::MAX, ..e };
    assert!(!big.in_bounds(u32::MAX as usize));
}

#[test]
fn platform_names() {
    assert_eq!(PselfRunner::detect_os("linux"), "linux");
    assert_eq!(PselfRunner::detect_os("windows"), "windows");
    assert_eq!(PselfRunner::detect_os("macos"), "macos");
    assert_eq!(PselfRunner::detect_os("android"), "unknown");
    assert!(PselfRunner::is_compatible(SectionType::Elf, "linux"));
    assert!(PselfRunner::is_compatible(SectionType::Pe, "windows"));
    assert!(PselfRunner::is_compatible(SectionType::Macho, "macos"));
    assert!(!PselfRunner::is_compatible(SectionType::Elf, "windows"));
    assert!(!PselfRunner::is_compatible(SectionType::Pe, "linux"));
    assert!(!PselfRunner::is_compatible(SectionType::Macho, "linux"));
    for t in [SectionType::Elf, SectionType::Pe, SectionType::Macho] {
        assert!(!PselfRunner::is_compatible(t, "unknown"));
        assert!(!PselfRunner::is_compatible(t, ""));
    }
}

#[test]
fn output_names() {
    assert_eq!(suffix_of(SectionType::Elf), ".elf.pself");
    assert_eq!(suffix_of(SectionType::Pe), ".exe.pself");
    assert_eq!(suffix_of(SectionType::Macho), ".mach.pself");
    let runner = PselfRunner::new(container(&[])).unwrap();
    let a = runner.load_section(&[1, 2, 3], SectionType::Elf);
    assert_eq!(a.file_name, "output_.elf.pself");
    assert_eq!(a.content, vec![1, 2, 3]);
    assert_eq!(runner.load_section(&[], SectionType::Pe).file_name, "output_.exe.pself");
    assert_eq!(runner.load_section(&[], SectionType::Macho).file_name, "output_.mach.pself");
}

#[test]
fn load_reads_header_and_table() {
    let data = container(&[(SectionType::Pe, "win", b"MZ"), (SectionType::Elf, "lin", b"\x7fELF")]);
    let runner = PselfRunner::new(data.clone()).unwrap();
    assert_eq!(runner.data, data);
    assert_eq!(runner.header, PselfHeader { version: 1, section_count: 2 });
    assert_eq!(runner.sections.len(), 2);
    let first = runner.sections[0].clone().unwrap();
    assert_eq!(first.section_type, SectionType::Pe);
    assert_eq!(first.name, "win");
    assert_eq!(first.offset, 12 + 146);
    assert_eq!(first.length, 2);
    let second = runner.sections[1].clone().unwrap();
    assert_eq!(second.name, "lin");
    assert_eq!(second.offset, 12 + 146 + 2);
}

#[test]
fn load_fails_on_a_bad_header() {
    assert_eq!(PselfRunner::new(vec![]), Err(FormatError::TooShort));
    assert_eq!(PselfRunner::new(vec![0x50, 0x53, 0x45]), Err(FormatError::TooShort));
    assert_eq!(PselfRunner::new(vec![0u8; 64]), Err(FormatError::BadMagic));
}

#[test]
fn load_fails_on_a_truncated_table() {
    let mut data = container(&[(SectionType::Elf, "a", b"x")]);
    data.truncate(12 + 72);
    assert_eq!(PselfRunner::new(data), Err(FormatError::TooShort));
    let data = PselfHeader::new(1, u32::MAX).to_bytes().to_vec();
    assert_eq!(PselfRunner::new(data), Err(FormatError::TooShort));
}

#[test]
fn first_compatible_section_is_selected_after_an_incompatible_one() {
    let data = container(&[(SectionType::Pe, "win", b"MZ-payload"), (SectionType::Elf, "lin", b"\x7fELF-payload")]);
    let runner = PselfRunner::new(data).unwrap();
    assert_eq!(runner.inspect(0, "linux"), Some(SectionStatus::Incompatible));
    assert_eq!(runner.inspect(1, "linux"), Some(SectionStatus::Selected));
    let sel = runner.run("linux").unwrap();
    assert_eq!(sel.index, 1);
    assert_eq!(sel.section_type, SectionType::Elf);
    assert_eq!(sel.artifact.file_name, "output_.elf.pself");
    assert_eq!(sel.artifact.content, b"\x7fELF-payload".to_vec());
    let sel = runner.run("windows").unwrap();
    assert_eq!(sel.index, 0);
    assert_eq!(sel.artifact.file_name, "output_.exe.pself");
    assert_eq!(sel.artifact.content, b"MZ-payload".to_vec());
}

#[test]
fn first_match_wins() {
    let data = container(&[
        (SectionType::Elf, "one", b"first"),
        (SectionType::Elf, "two", b"second"),
        (SectionType::Macho, "mac", b"third"),
    ]);
    let runner = PselfRunner::new(data).unwrap();
    let sel = runner.run("linux").unwrap();
    assert_eq!(sel.index, 0);
    assert_eq!(sel.artifact.content, b"first".to_vec());
    let sel = runner.run("macos").unwrap();
    assert_eq!(sel.index, 2);
    assert_eq!(sel.artifact.file_name, "output_.mach.pself");
}

#[test]
fn tampered_section_is_skipped_though_compatible() {
    let mut data = container(&[(SectionType::Elf, "bad", b"payload-a"), (SectionType::Elf, "good", b"payload-b")]);
    let at = 12 + 146;
    data[at] ^= 0xff;
    let runner = PselfRunner::new(data).unwrap();
    assert_eq!(
        runner.inspect(0, "linux"),
        Some(SectionStatus::Tampered(IntegrityError::HashMismatch))
    );
    let sel = runner.run("linux").unwrap();
    assert_eq!(sel.index, 1);
    assert_eq!(sel.artifact.content, b"payload-b".to_vec());
}

#[test]
fn only_section_tampered_selects_nothing() {
    let mut data = container(&[(SectionType::Elf, "bad", b"payload")]);
    let last = data.len() - 1;
    data[last] ^= 1;
    let runner = PselfRunner::new(data).unwrap();
    assert_eq!(runner.run("linux"), Err(SelectionError::NoCompatibleSection));
}

#[test]
fn out_of_range_section_is_skipped_and_the_scan_goes_on() {
    let mut data = container(&[(SectionType::Elf, "far", b"aaaa"), (SectionType::Elf, "near", b"bbbb")]);
    // record 0: length reaches one byte beyond the buffer
    let len = data.len() as u32;
    let offset = u32::from_be_bytes([data[12 + 33], data[12 + 34], data[12 + 35], data[12 + 36]]);
    let too_long = (len - offset + 1).to_be_bytes();
    data[12 + 37..12 + 41].copy_from_slice(&too_long);
    let runner = PselfRunner::new(data).unwrap();
    assert_eq!(runner.inspect(0, "linux"), Some(SectionStatus::OutOfRange(RangeError::OutOfBounds)));
    let sel = runner.run("linux").unwrap();
    assert_eq!(sel.index, 1);
    assert_eq!(sel.artifact.content, b"bbbb".to_vec());
}

#[test]
fn range_is_checked_before_the_digest_and_the_platform() {
    let mut data = container(&[(SectionType::Pe, "far", b"aaaa")]);
    data[12 + 33..12 + 37].copy_from_slice(&u32::MAX.to_be_bytes());
    data[12 + 37..12 + 41].copy_from_slice(&u32::MAX.to_be_bytes());
    let runner = PselfRunner::new(data).unwrap();
    assert_eq!(runner.inspect(0, "linux"), Some(SectionStatus::OutOfRange(RangeError::OutOfBounds)));
    assert_eq!(runner.run("windows"), Err(SelectionError::NoCompatibleSection));
}

#[test]
fn section_that_ends_at_the_end_of_the_buffer_is_in_range() {
    let data = container(&[(SectionType::Elf, "tail", b"last bytes")]);
    let runner = PselfRunner::new(data).unwrap();
    assert_eq!(runner.run("linux").unwrap().artifact.content, b"last bytes".to_vec());
}

#[test]
fn offsets_count_from_the_start_of_the_container() {
    // a record may point into the header itself
    let mut data = PselfHeader::new(1, 1).to_bytes().to_vec();
    let e = SectionEntry {
        section_type: SectionType::Elf,
        name: "magic".to_string(),
        offset: 0,
        length: 4,
        hash: SectionEntry::compute_hash(b"PSEL"),
    };
    data.extend_from_slice(&e.to_bytes().unwrap());
    let runner = PselfRunner::new(data).unwrap();
    assert_eq!(runner.run("linux").unwrap().artifact.content, b"PSEL".to_vec());
}

#[test]
fn empty_payload_is_selected() {
    let data = container(&[(SectionType::Macho, "none", b"")]);
    let runner = PselfRunner::new(data).unwrap();
    let sel = runner.run("macos").unwrap();
    assert_eq!(sel.index, 0);
    assert_eq!(sel.artifact.content, Vec::<u8>::new());
}

#[test]
fn unreadable_record_is_skipped() {
    let mut data = container(&[(SectionType::Elf, "one", b"aaaa"), (SectionType::Elf, "two", b"bbbb")]);
    data[12] = 7;
    let runner = PselfRunner::new(data.clone()).unwrap();
    assert_eq!(runner.sections[0], Err(FormatError::BadType));
    assert_eq!(runner.inspect(0, "linux"), Some(SectionStatus::Malformed(FormatError::BadType)));
    assert_eq!(runner.run("linux").unwrap().index, 1);
    data[12] = 0;
    data[12 + 5] = 0xff;
    let runner = PselfRunner::new(data).unwrap();
    assert_eq!(runner.inspect(0, "linux"), Some(SectionStatus::Malformed(FormatError::BadName)));
    assert_eq!(runner.run("linux").unwrap().index, 1);
}

#[test]
fn no_compatible_section() {
    let data = container(&[(SectionType::Pe, "win", b"MZ"), (SectionType::Macho, "mac", b"\xcf\xfa")]);
    let runner = PselfRunner::new(data.clone()).unwrap();
    assert_eq!(runner.run("linux"), Err(SelectionError::NoCompatibleSection));
    assert_eq!(runner.run("unknown"), Err(SelectionError::NoCompatibleSection));
    assert_eq!(run_pself(data, "linux"), Err(PselfError::Selection(SelectionError::NoCompatibleSection)));
    let runner = PselfRunner::new(container(&[])).unwrap();
    assert_eq!(runner.run("linux"), Err(SelectionError::NoCompatibleSection));
}

#[test]
fn inspect_beyond_the_table() {
    let runner = PselfRunner::new(container(&[(SectionType::Elf, "a", b"x")])).unwrap();
    assert_eq!(runner.inspect(1, "linux"), None);
    assert_eq!(runner.inspect(usize::MAX, "linux"), None);
}

#[test]
fn run_pself_loads_and_runs() {
    let data = container(&[(SectionType::Pe, "win", b"MZ"), (SectionType::Elf, "lin", b"\x7fELF")]);
    let sel = run_pself(data, "linux").unwrap();
    assert_eq!(sel.index, 1);
    assert_eq!(sel.artifact.file_name, "output_.elf.pself");
    assert_eq!(sel.artifact.content, b"\x7fELF".to_vec());
    assert_eq!(run_pself(vec![1, 2, 3], "linux"), Err(PselfError::Format(FormatError::TooShort)));
    assert_eq!(run_pself(vec![0; 12], "linux"), Err(PselfError::Format(FormatError::BadMagic)));
}

#[test]
fn run_states_follow_the_scan() {
    let data = container(&[(SectionType::Pe, "win", b"MZ"), (SectionType::Elf, "lin", b"\x7fELF")]);
    let runner = PselfRunner::new(data).unwrap();
    let mut state = RunState::Loaded;
    let mut seen = vec![state];
    for _ in 0..5 {
        state = runner.step(state, "linux");
        seen.push(state);
    }
    assert_eq!(
        seen,
        vec![
            RunState::Loaded,
            RunState::Scanning(0),
            RunState::Scanning(1),
            RunState::Selected(1),
            RunState::Selected(1),
            RunState::Selected(1),
        ]
    );
    let mut state = RunState::Loaded;
    for _ in 0..4 {
        state = runner.step(state, "macos");
    }
    assert_eq!(state, RunState::Exhausted);
    assert_eq!(runner.step(state, "macos"), RunState::Exhausted);
    assert_eq!(runner.step(RunState::Scanning(7), "linux"), RunState::Exhausted);
    assert_eq!(runner.step(RunState::Selected(0), "linux"), RunState::Selected(0));
}
