//! The fingerprint key against the real SHA-256.

use edge_gate::fingerprint::DeviceFingerprintKeyExtractor;
use sha2::{Digest, Sha256};

fn hex_of(bytes: &[u8]) -> String {
    let mut s = String::new();
    for b in bytes {
        s.push_str(&format!("{:02x}", b));
    }
    s
}

#[test]
fn fingerprint_is_the_hex_sha256_of_the_joined_headers() {
    let extractor = DeviceFingerprintKeyExtractor;
    let parts: Vec<Vec<u8>> = vec![
        b"Mozilla/5.0".to_vec(),
        b"text/html".to_vec(),
        b"gzip, br".to_vec(),
    ];
    let key = extractor.extract_from_headers(&parts);

    let mut hasher = Sha256::new();
    hasher.update(b"Mozilla/5.0");
    hasher.update(b"text/html");
    hasher.update(b"gzip, br");
    let expected = hex_of(hasher.finalize().as_slice());
    assert_eq!(key, expected);
}

#[test]
fn fingerprint_matches_a_known_vector() {
    // SHA-256("abc"), a published test vector.
    let extractor = DeviceFingerprintKeyExtractor;
    let parts: Vec<Vec<u8>> = vec![b"ab".to_vec(), b"c".to_vec()];
    let key = extractor.extract_from_headers(&parts);
    assert_eq!(
        key,
        "ba7816bf8f01cfea414140de5dae2223b00361a396177a9cb410ff61f20015ad"
    );
}

#[test]
fn fingerprint_of_no_headers_is_the_empty_hash() {
    // SHA-256 of the empty input, a published test vector.
    let extractor = DeviceFingerprintKeyExtractor;
    let parts: Vec<Vec<u8>> = Vec::new();
    let key = extractor.extract_from_headers(&parts);
    assert_eq!(
        key,
        "e3b0c44298fc1c149afbf4c8996fb92427ae41e4649b934ca495991b7852b855"
    );
}
