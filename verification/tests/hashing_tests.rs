use b8t_core::hashing::{hash_block, hash_contents, hash_secret};

#[test]
fn secrets_are_stored_by_their_blake3_digest() {
    let d = hash_secret("token-123");
    assert_eq!(d, blake3::hash(b"token-123").to_hex().to_string());
    assert_eq!(d.len(), 64);
    assert!(d.chars().all(|c| c.is_ascii_digit() || ('a'..='f').contains(&c)));
    assert_ne!(hash_secret("token-124"), d);
    assert_eq!(
        hash_secret(""),
        "af1349b9f5f9a1a6a0404dea36dcc9499bcb25c9adc112b7cc9a93cae41f3262"
    );
}

#[test]
fn file_digests() {
    let content = b"{\"stats\":{}}".to_vec();
    assert_eq!(hash_contents(&content), blake3::hash(&content).to_hex().to_string());
}

#[test]
fn block_digests_skip_unreadable_files() {
    let a = b"first".to_vec();
    let b = b"second".to_vec();
    let mut joined = a.clone();
    joined.extend_from_slice(&b);
    let expected = blake3::hash(&joined).to_hex().to_string();
    assert_eq!(hash_block(&vec![Some(a.clone()), None, Some(b.clone())]), expected);
    assert_eq!(hash_block(&vec![Some(a.clone()), Some(b.clone())]), expected);
    assert_ne!(hash_block(&vec![Some(b), Some(a)]), expected);
    assert_eq!(hash_block(&vec![]), hash_contents(&[]));
}
