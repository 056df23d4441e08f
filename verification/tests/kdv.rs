use pself::kdv::{KdvVerifier, VerifyOutcome};

const ABC_SHA256: [u8; 32] = [
    0xba, 0x78, 0x16, 0xbf, 0x8f, 0x01, 0xcf, 0xea, 0x41, 0x41, 0x40, 0xde, 0x5d, 0xae, 0x22, 0x23,
    0xb0, 0x03, 0x61, 0xa3, 0x96, 0x17, 0x7a, 0x9c, 0xb4, 0x10, 0xff, 0x61, 0xf2, 0x00, 0x15, 0xad,
];

fn store(sections: &[(&str, &[u8])]) -> KdvVerifier {
    let owned: Vec<(String, Vec<u8>)> =
        sections.iter().map(|(n, c)| (n.to_string(), c.to_vec())).collect();
    let mut v = KdvVerifier::new();
    v.load_initial_fingerprints(&owned);
    v
}

#[test]
fn kdv_digest_is_sha256() {
    assert_eq!(KdvVerifier::compute_hash(b"abc"), ABC_SHA256.to_vec());
    assert_eq!(KdvVerifier::compute_hash(b"abc").len(), 32);
    assert_ne!(KdvVerifier::compute_hash(b"abc"), b"abc".to_vec());
}

#[test]
fn kdv_fingerprint_of_a_section() {
    let fp = KdvVerifier::fingerprint_of("boot", b"abc");
    assert_eq!(fp.section_name, "boot");
    assert_eq!(fp.hash, ABC_SHA256.to_vec());
}

#[test]
fn kdv_recorded_content_is_verified() {
    let v = store(&[("a.bin", b"alpha"), ("b.bin", b"beta")]);
    assert!(v.verify("a.bin", b"alpha"));
    assert!(v.verify("b.bin", b"beta"));
    assert_eq!(v.check("a.bin", b"alpha"), VerifyOutcome::Verified);
}

#[test]
fn kdv_changed_content_is_a_violation() {
    let v = store(&[("a.bin", b"alpha"), ("b.bin", b"beta")]);
    assert!(!v.verify("a.bin", b"alphA"));
    assert!(!v.verify("a.bin", b"beta"));
    assert_eq!(v.check("a.bin", b"beta"), VerifyOutcome::IntegrityViolation);
    assert_eq!(v.check("b.bin", b""), VerifyOutcome::IntegrityViolation);
}

#[test]
fn kdv_unknown_name_is_not_a_violation() {
    let v = store(&[("a.bin", b"alpha")]);
    assert!(!v.verify("c.bin", b"alpha"));
    assert_eq!(v.check("c.bin", b"alpha"), VerifyOutcome::UnknownSection);
    assert_eq!(v.check("A.bin", b"alpha"), VerifyOutcome::UnknownSection);
    let empty = KdvVerifier::new();
    assert_eq!(empty.check("a.bin", b"alpha"), VerifyOutcome::UnknownSection);
}

#[test]
fn kdv_compare_takes_the_digest_as_given() {
    let v = store(&[("abc", b"abc")]);
    assert_eq!(v.compare("abc", &ABC_SHA256), VerifyOutcome::Verified);
    assert_eq!(v.compare("abc", &ABC_SHA256[..31]), VerifyOutcome::IntegrityViolation);
    assert_eq!(v.compare("abc", &[0u8; 32]), VerifyOutcome::IntegrityViolation);
    assert_eq!(v.compare("abd", &ABC_SHA256), VerifyOutcome::UnknownSection);
}

#[test]
fn kdv_later_record_replaces_the_earlier_one() {
    let v = store(&[("a", b"old"), ("b", b"x"), ("a", b"new")]);
    assert!(v.verify("a", b"new"));
    assert!(!v.verify("a", b"old"));
    assert!(v.verify("b", b"x"));
    let mut v = v;
    v.record(KdvVerifier::fingerprint_of("b", b"y"));
    assert!(v.verify("b", b"y"));
    assert!(!v.verify("b", b"x"));
}
