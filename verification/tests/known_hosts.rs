//! Fingerprints and the plausibility of host-key blobs.
use ssh_transport::known_hosts::{
    base64_encode, blob_fingerprint, digest_fingerprint, is_plausible_blob,
};

/// Length-prefixed "ssh-ed25519", and length-prefixed bytes 0x01..=0x20.
fn ed_blob() -> Vec<u8> {
    let mut v = Vec::new();
    v.extend_from_slice(&11u32.to_be_bytes());
    v.extend_from_slice(b"ssh-ed25519");
    v.extend_from_slice(&32u32.to_be_bytes());
    v.extend((1u8..=32).collect::<Vec<u8>>());
    v
}

/// A wire blob of parts, each with its length before it.
fn raw_blob(parts: &[&[u8]]) -> Vec<u8> {
    let mut out = Vec::new();
    for p in parts {
        out.extend_from_slice(&(p.len() as u32).to_be_bytes());
        out.extend_from_slice(p);
    }
    out
}

#[test]
fn plausibility_is_android_ported_byte_exactly() {
    assert!(is_plausible_blob(&ed_blob()));
    assert!(is_plausible_blob(&raw_blob(&[b"ssh-rsa", &[0xAB; 32]])));
    assert!(!is_plausible_blob(&raw_blob(&["AAAA".as_bytes()])));
    assert!(!is_plausible_blob(b"ABCDEF".to_vec().as_slice()));
    assert!(!is_plausible_blob(&[]));
    assert!(!is_plausible_blob(&[0, 0, 0]));
    // embedded length beyond the buffer
    assert!(!is_plausible_blob(&[0, 0, 1, 0, b's']));
    // embedded algorithm must look like an algorithm family
    assert!(!is_plausible_blob(&raw_blob(&[
        b"hello",
        &[1u8, 2, 3, 4, 5, 6, 7, 8]
    ])));
}

#[test]
fn fingerprint_is_sha256_unpadded() {
    let fp = blob_fingerprint(&ed_blob());
    assert!(fp.starts_with("SHA256:"));
    assert!(!fp.contains('='));
    assert_eq!(fp.len(), 7 + 43); // SHA-256 is 43 unpadded base64 characters
    assert_eq!(
        blob_fingerprint(&ed_blob()),
        "SHA256:mKqU+0K8OhKmA8bBQi9Rz0Q5l7/g160hIP+rJYSTNj4"
    );
    // RSA blobs have fingerprints too
    assert!(blob_fingerprint(&raw_blob(&[b"ssh-rsa", &[0xAB; 32]])).starts_with("SHA256:"));
}

#[test]
fn every_known_family_is_plausible() {
    let families: [&[u8]; 4] = [
        b"ssh-dss",
        b"ecdsa-sha2-nistp256",
        b"sk-ssh-ed25519@openssh.com",
        b"x509v3-ssh-rsa",
    ];
    for family in families {
        assert!(is_plausible_blob(&raw_blob(&[family, &[1, 2, 3]])));
    }
    assert!(!is_plausible_blob(&raw_blob(&[
        b"sk-ecdsa-sha2-nistp256@openssh.com",
        &[1]
    ])));
}

#[test]
fn unprintable_algorithms_are_implausible() {
    assert!(!is_plausible_blob(&raw_blob(&[b"ssh-\x1f"])));
    assert!(!is_plausible_blob(&raw_blob(&[b"ssh-\x7f"])));
    assert!(!is_plausible_blob(&raw_blob(&[b"ssh-\xc3\xa9"])));
    assert!(!is_plausible_blob(&raw_blob(&[b"ssh-\xff"])));
    assert!(is_plausible_blob(&raw_blob(&[b"ssh- ~"])));
}

#[test]
fn shortest_plausible_blob() {
    assert!(is_plausible_blob(&raw_blob(&[b"ssh-"])));
    assert!(!is_plausible_blob(&[0, 0, 0, 3, b's', b's', b'h', b'-']));
    assert!(!is_plausible_blob(&[0xff, 0xff, 0xff, 0xff, b's', b's', b'h', b'-']));
}

#[test]
fn only_the_algorithm_counts_for_plausibility() {
    let mut blob = raw_blob(&[b"ssh-rsa"]);
    assert!(is_plausible_blob(&blob));
    blob.extend_from_slice(&[0, 255, 10, 13]);
    assert!(is_plausible_blob(&blob));
}

#[test]
fn cut_off_blobs_are_implausible() {
    let blob = raw_blob(&[b"ssh-ed25519"]);
    for n in 0..blob.len() {
        assert!(!is_plausible_blob(&blob[..n]));
    }
    assert!(is_plausible_blob(&blob));
}

#[test]
fn base64_of_short_inputs() {
    assert_eq!(base64_encode(b""), "");
    assert_eq!(base64_encode(b"f"), "Zg==");
    assert_eq!(base64_encode(b"fo"), "Zm8=");
    assert_eq!(base64_encode(b"foo"), "Zm9v");
    assert_eq!(base64_encode(b"foob"), "Zm9vYg==");
    assert_eq!(base64_encode(b"fooba"), "Zm9vYmE=");
    assert_eq!(base64_encode(b"foobar"), "Zm9vYmFy");
}

#[test]
fn base64_uses_the_whole_alphabet() {
    let mut data = Vec::new();
    for g in 0..16u32 {
        let n: u32 = (4 * g) << 18 | (4 * g + 1) << 12 | (4 * g + 2) << 6 | (4 * g + 3);
        data.extend_from_slice(&n.to_be_bytes()[1..]);
    }
    assert_eq!(
        base64_encode(&data),
        "ABCDEFGHIJKLMNOPQRSTUVWXYZabcdefghijklmnopqrstuvwxyz0123456789+/"
    );
}

#[test]
fn different_digests_have_different_fingerprints() {
    let zeros = [0u8; 32];
    let mut ones = [0u8; 32];
    ones[31] = 1;
    assert_eq!(
        digest_fingerprint(&zeros),
        "SHA256:AAAAAAAAAAAAAAAAAAAAAAAAAAAAAAAAAAAAAAAAAAA"
    );
    assert_ne!(digest_fingerprint(&zeros), digest_fingerprint(&ones));
}

#[test]
fn fingerprint_of_the_empty_blob() {
    assert_eq!(
        blob_fingerprint(&[]),
        "SHA256:47DEQpj8HBSa+/TImW+5JCeuQeRkm5NMpJWZG3hSuFU"
    );
}
