use pself::serialk::{IncludedFile, SerialK};

fn file(name: &str, content: &[u8]) -> IncludedFile {
    IncludedFile { name: name.to_string(), content: content.to_vec() }
}

#[test]
fn bundle_of_no_files() {
    assert_eq!(SerialK::create_pself(&[]), b"PSELFv12\nPSELF-END\n".to_vec());
}

#[test]
fn bundle_frames_each_file() {
    let out = SerialK::create_pself(&[file("a.txt", b"hello"), file("b.bin", &[0, 255, 10])]);
    let mut expected = Vec::new();
    expected.extend_from_slice(b"PSELFv12\n");
    expected.extend_from_slice(b"--FILE:a.txt--\nhello\n--END--\n");
    expected.extend_from_slice(b"--FILE:b.bin--\n");
    expected.extend_from_slice(&[0, 255, 10]);
    expected.extend_from_slice(b"\n--END--\n");
    expected.extend_from_slice(b"PSELF-END\n");
    assert_eq!(out, expected);
}

#[test]
fn bundle_keeps_bytes_verbatim() {
    // content that looks like framing is not escaped
    let out = SerialK::create_pself(&[file("x", b"\n--END--\nPSELF-END\n")]);
    assert_eq!(out, b"PSELFv12\n--FILE:x--\n\n--END--\nPSELF-END\n\n--END--\nPSELF-END\n".to_vec());
    let out = SerialK::create_pself(&[file("empty", b"")]);
    assert_eq!(out, b"PSELFv12\n--FILE:empty--\n\n--END--\nPSELF-END\n".to_vec());
}

#[test]
fn bundle_names_are_utf8() {
    let out = SerialK::create_pself(&[file("é", b"1")]);
    assert_eq!(out, "PSELFv12\n--FILE:é--\n1\n--END--\nPSELF-END\n".as_bytes().to_vec());
}

#[test]
fn included_files_pair_names_and_contents() {
    let files = SerialK::load_included_files(
        vec!["a".to_string(), "b".to_string()],
        vec![vec![1], vec![2, 3]],
    )
    .unwrap();
    assert_eq!(files, vec![file("a", &[1]), file("b", &[2, 3])]);
    assert_eq!(SerialK::load_included_files(vec![], vec![]), Some(vec![]));
    assert_eq!(SerialK::load_included_files(vec!["a".to_string()], vec![]), None);
    assert_eq!(SerialK::load_included_files(vec![], vec![vec![]]), None);
}
