use jargo::checksum::{check_sidecar, digests_match, validate_checksum_bytes, validate_checksum_text, Verdict};

// SHA-1 of "abc".
const ABC_SHA1: &str = "a9993e364706816aba3e25717850c26c9cd0d89d";

fn abc_digest() -> Vec<u8> {
    hex::decode(ABC_SHA1).unwrap()
}

#[test]
fn correct_digest_is_accepted() {
    assert!(validate_checksum_bytes(b"abc", &abc_digest()));
    assert!(validate_checksum_text("abc", &abc_digest()));
}

#[test]
fn altered_digest_is_refused() {
    let mut d = abc_digest();
    d[0] ^= 1;
    assert!(!validate_checksum_bytes(b"abc", &d));
    assert!(!validate_checksum_bytes(b"abc", &abc_digest()[..19]));
    assert!(!validate_checksum_bytes(b"abd", &abc_digest()));
    assert!(!validate_checksum_text("", &abc_digest()));
}

#[test]
fn sidecar_verdicts() {
    assert!(matches!(check_sidecar(b"abc", ABC_SHA1.as_bytes()), Verdict::Valid));
    assert!(matches!(check_sidecar(b"abc", ABC_SHA1.to_uppercase().as_bytes()), Verdict::Valid));
    assert!(matches!(
        check_sidecar(b"abc", b"a9993e364706816aba3e25717850c26c9cd0d89e"),
        Verdict::Invalid
    ));
    assert!(matches!(check_sidecar(b"abc", b"a9993"), Verdict::Unreadable));
    assert!(matches!(check_sidecar(b"abc", b"zz"), Verdict::Unreadable));
}

#[test]
fn digest_comparison() {
    assert!(digests_match(&[1, 2, 3], &[1, 2, 3]));
    assert!(!digests_match(&[1, 2, 3], &[1, 2]));
    assert!(!digests_match(&[1, 2, 3], &[1, 2, 4]));
    assert!(digests_match(&[], &[]));
}
