//! Content digests and the `.sha1` sidecars that publish them.
use vstd::prelude::*;

use sha1::Digest;
use vstd::string::StringSliceAdditionalSpecFns;

verus! {

/// The 20-byte SHA-1 digest of `data`.
pub uninterp spec fn sha1_of(data: Seq<u8>) -> Seq<u8>;

/// Relies on `sha1::Sha1::digest` (through the `Digest` trait): the SHA-1
/// digest of the bytes, which depends on those bytes alone; its output size
/// is 20 bytes.
#[verifier::external_body]
fn sha1_digest(data: &[u8]) -> (r: Vec<u8>)
    ensures
        r@ == sha1_of(data@),
        r@.len() == 20,
{
    sha1::Sha1::digest(data).to_vec()
}

#[verifier::external_type_specification]
#[verifier::external_body]
pub struct ExFromHexError(hex::FromHexError);

/// The value of one hexadecimal digit, upper or lower case.
pub open spec fn hex_digit(c: u8) -> Option<u8> {
    if 48 <= c <= 57 {
        Some((c - 48) as u8)
    } else if 97 <= c <= 102 {
        Some((c - 87) as u8)
    } else if 65 <= c <= 70 {
        Some((c - 55) as u8)
    } else {
        None
    }
}

/// The bytes that a hexadecimal text encodes, two digits for each byte, or
/// `None` where the length is odd or a character is no hex digit.
pub open spec fn hex_decoded(s: Seq<u8>) -> Option<Seq<u8>>
    decreases s.len(),
{
    if s.len() % 2 != 0 {
        None
    } else if s.len() == 0 {
        Some(Seq::empty())
    } else {
        match (hex_digit(s[0]), hex_digit(s[1]), hex_decoded(s.subrange(2, s.len() as int))) {
            (Some(hi), Some(lo), Some(rest)) => Some(seq![(hi * 16 + lo) as u8] + rest),
            _ => None,
        }
    }
}

/// Relies on `hex::decode`: it fails on an odd length or a character that is no
/// hex digit, and otherwise turns each pair of digits into one byte.
#[verifier::external_body]
fn hex_decode(data: &[u8]) -> (r: Result<Vec<u8>, hex::FromHexError>)
    ensures
        r is Ok <==> hex_decoded(data@) is Some,
        r matches Ok(v) ==> v@ == hex_decoded(data@)->Some_0,
{
    hex::decode(data)
}

/// The published checksum `expected` confirms `data`.
pub open spec fn checksum_accepts(data: Seq<u8>, expected: Seq<u8>) -> bool {
    sha1_of(data) == expected
}

/// Whether a computed digest equals the expected one, byte for byte.
pub fn digests_match(digest: &[u8], expected: &[u8]) -> (r: bool)
    ensures
        r == (digest@ == expected@),
{
    if digest.len() != expected.len() {
        return false;
    }
    let mut i: usize = 0;
    while i < digest.len()
        invariant
            digest@.len() == expected@.len(),
            i <= digest@.len(),
            forall|j: int| 0 <= j < i ==> digest@[j] == expected@[j],
        decreases digest@.len() - i,
    {
        if digest[i] != expected[i] {
            return false;
        }
        i = i + 1;
    }
    assert(digest@ =~= expected@);
    true
}

/// Whether `checksum` is the digest of `jar`.
pub fn validate_checksum_bytes(jar: &[u8], checksum: &[u8]) -> (r: bool)
    ensures
        r == checksum_accepts(jar@, checksum@),
{
    let digest = sha1_digest(jar);
    digests_match(digest.as_slice(), checksum)
}

/// Whether `checksum` is the digest of the UTF-8 bytes of `text`.
pub fn validate_checksum_text(text: &str, checksum: &[u8]) -> (r: bool)
    ensures
        r == checksum_accepts(text.spec_bytes(), checksum@),
{
    validate_checksum_bytes(text.as_bytes(), checksum)
}

/// What a sidecar says of the bytes it accompanies.
pub enum Verdict {
    /// The sidecar holds the digest of the bytes.
    Valid,
    /// The sidecar holds a digest, and it is not that of the bytes.
    Invalid,
    /// The sidecar is not hexadecimal text.
    Unreadable,
}

/// The verdict of the sidecar text `sidecar` on `data`.
pub open spec fn sidecar_verdict(data: Seq<u8>, sidecar: Seq<u8>) -> Verdict {
    match hex_decoded(sidecar) {
        None => Verdict::Unreadable,
        Some(expected) => if checksum_accepts(data, expected) {
            Verdict::Valid
        } else {
            Verdict::Invalid
        },
    }
}

/// Checks `data` against the hex-encoded digest of a `.sha1` sidecar.
pub fn check_sidecar(data: &[u8], sidecar: &[u8]) -> (r: Verdict)
    ensures
        r == sidecar_verdict(data@, sidecar@),
{
    match hex_decode(sidecar) {
        Err(_) => Verdict::Unreadable,
        Ok(expected) => if validate_checksum_bytes(data, expected.as_slice()) {
            Verdict::Valid
        } else {
            Verdict::Invalid
        },
    }
}

/// The digest of some bytes confirms them, and any other value is refused.
pub proof fn lemma_only_the_digest_confirms(data: Seq<u8>, expected: Seq<u8>)
    ensures
        checksum_accepts(data, sha1_of(data)),
        expected != sha1_of(data) ==> !checksum_accepts(data, expected),
{
}

} // verus!
