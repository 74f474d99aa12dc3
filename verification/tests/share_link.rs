use drive_clone_api::share_link::{generate_share_token, hash_share_token};

#[test]
fn share_link_tokens_are_random_and_hash_deterministically() {
    let first = generate_share_token();
    let second = generate_share_token();
    assert_ne!(first, second);
    assert_eq!(first.len(), 43);
    // Same token hashes to the same 32-byte digest every time.
    assert_eq!(hash_share_token(&first), hash_share_token(&first));
    assert_eq!(hash_share_token(&first).len(), 32);
    // Different tokens hash to different digests.
    assert_ne!(hash_share_token(&first), hash_share_token(&second));
}
