//! Content addressing: determinism, hint exclusion, and the real digest.

use post_it::codec::{address_of, canonical_bytes};
use post_it::ids::{Post, PosterId, PosterIdWithHint};
use sha2::{Digest, Sha256};

fn sample_post(text: &str, hint: &str, ts: u64) -> Post {
    Post {
        sender: PosterId::AccountId(String::from("alice")),
        receiver: PosterIdWithHint::Base58CryptoHash(vec![7u8; 32], String::from(hint)),
        text: String::from(text),
        timestamp: ts,
        encrypted: true,
    }
}

#[test]
fn address_is_the_sha256_of_the_canonical_encoding() {
    let post = sample_post("hello", "Bob", 42);
    let addr = address_of(&post);
    assert_eq!(addr.len(), 32);
    let expected = Sha256::digest(canonical_bytes(&post)).to_vec();
    assert_eq!(addr, expected);
}

#[test]
fn equal_posts_share_an_address() {
    let p1 = sample_post("hello", "Bob", 42);
    let p2 = sample_post("hello", "Bob", 42);
    assert_eq!(address_of(&p1), address_of(&p2));
}

#[test]
fn the_hint_never_reaches_the_hash() {
    let p1 = sample_post("hello", "Bob", 42);
    let p2 = sample_post("hello", "Robert", 42);
    assert_eq!(canonical_bytes(&p1), canonical_bytes(&p2));
    assert_eq!(address_of(&p1), address_of(&p2));
}

#[test]
fn any_field_changes_the_address() {
    let base = sample_post("hello", "Bob", 42);
    assert_ne!(address_of(&base), address_of(&sample_post("hello!", "Bob", 42)));
    assert_ne!(address_of(&base), address_of(&sample_post("hello", "Bob", 43)));
    let other_sender = Post { sender: PosterId::AccountId(String::from("eve")), ..base.clone() };
    assert_ne!(address_of(&base), address_of(&other_sender));
}

#[test]
fn canonical_encoding_fixes_field_order_and_lengths() {
    let post = Post {
        sender: PosterId::AccountId(String::from("ab")),
        receiver: PosterIdWithHint::AccountId(String::from("c")),
        text: String::from("hey"),
        timestamp: 0x0102,
        encrypted: false,
    };
    let bytes = canonical_bytes(&post);
    let mut expected: Vec<u8> = Vec::new();
    expected.push(0); // sender: account variant
    expected.extend_from_slice(&2u64.to_le_bytes());
    expected.extend_from_slice(b"ab");
    expected.push(0); // receiver: account variant, no hint encoded
    expected.extend_from_slice(&1u64.to_le_bytes());
    expected.extend_from_slice(b"c");
    expected.extend_from_slice(&3u64.to_le_bytes());
    expected.extend_from_slice(b"hey");
    expected.extend_from_slice(&0x0102u64.to_le_bytes());
    expected.push(0); // not encrypted
    assert_eq!(bytes, expected);
}
