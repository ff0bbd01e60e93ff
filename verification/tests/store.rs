//! End-to-end behaviour of the message store.

use post_it::PostIt;
use post_it::accountant::PostError;
use post_it::ids::{Post, PosterId, PosterIdWithHint};

const PRICE: u128 = 2;

fn hash32(seed: u8) -> Vec<u8> {
    let mut h = vec![seed; 31];
    h.push(seed.wrapping_add(1));
    h
}

/// "alice" posts "hi" to "bob": 5 + 3 (identities) + 2 (text) + 9
/// (timestamp and flag) + 160 (five 32-unit address copies).
const HI_UNITS: u128 = 5 + 3 + 2 + 9 + 160;

#[test]
fn fresh_store_is_empty() {
    let store = PostIt::new();
    assert!(store.get_public_posts().is_empty());
    let unknown = PosterId::AccountId(String::from("nobody"));
    assert!(store.get_send_posts_by_account(unknown.clone()).is_empty());
    assert!(store.get_receive_posts_by_account(unknown).is_empty());
}

#[test]
fn post_delivers_and_refunds_exactly() {
    let mut store = PostIt::new();
    let deposit: u128 = 400;
    let refund = store
        .post(
            String::from("hi"),
            PosterIdWithHint::AccountId(String::from("bob")),
            String::from("alice"),
            7,
            deposit,
            PRICE,
        )
        .unwrap();
    assert_eq!(refund, deposit - HI_UNITS * PRICE);

    let received = store.get_receive_posts_by_account(PosterId::AccountId(String::from("bob")));
    assert_eq!(received.len(), 1);
    let post = &received[0];
    assert_eq!(post.sender, PosterId::AccountId(String::from("alice")));
    assert_eq!(post.receiver, PosterIdWithHint::AccountId(String::from("bob")));
    assert_eq!(post.text, "hi");
    assert_eq!(post.timestamp, 7);
    assert!(!post.encrypted);

    let sent = store.get_send_posts_by_account(PosterId::AccountId(String::from("alice")));
    assert_eq!(sent.len(), 1);
    assert_eq!(sent[0], received[0]);
}

#[test]
fn insufficient_deposit_changes_nothing() {
    let mut store = PostIt::new();
    let alice = PosterId::AccountId(String::from("alice"));
    let before = store.get_send_posts_by_account(alice.clone());
    let r = store.post(
        String::from("hi"),
        PosterIdWithHint::AccountId(String::from("bob")),
        String::from("alice"),
        7,
        HI_UNITS * PRICE - 1,
        PRICE,
    );
    assert_eq!(r, Err(PostError::InsufficientDeposit));
    let after = store.get_send_posts_by_account(alice);
    assert_eq!(before, after);
    assert!(after.is_empty());
    assert!(store
        .get_receive_posts_by_account(PosterId::AccountId(String::from("bob")))
        .is_empty());
}

#[test]
fn exact_deposit_leaves_no_refund() {
    let mut store = PostIt::new();
    let refund = store
        .post(
            String::from("hi"),
            PosterIdWithHint::AccountId(String::from("bob")),
            String::from("alice"),
            7,
            HI_UNITS * PRICE,
            PRICE,
        )
        .unwrap();
    assert_eq!(refund, 0);
}

#[test]
fn anonymous_post_is_encrypted_and_keyed_by_hash() {
    let mut store = PostIt::new();
    let hash = hash32(9);
    let receiver = PosterIdWithHint::Base58CryptoHash(hash.clone(), String::from("Bob"));
    store
        .post(
            String::from("secret"),
            receiver,
            String::from("alice"),
            11,
            1_000_000,
            1,
        )
        .unwrap();

    let by_hash = store.get_receive_posts_by_account(PosterId::Base58CryptoHash(hash.clone()));
    assert_eq!(by_hash.len(), 1);
    assert!(by_hash[0].encrypted);
    assert_eq!(
        by_hash[0].receiver,
        PosterIdWithHint::Base58CryptoHash(hash, String::from("Bob"))
    );

    // the record is keyed by the content address, not by the hint
    let by_name = store.get_receive_posts_by_account(PosterId::AccountId(String::from("Bob")));
    assert!(by_name.is_empty());
}

#[test]
fn identical_posts_are_stored_once() {
    let mut store = PostIt::new();
    let bob = PosterIdWithHint::AccountId(String::from("bob"));
    let r1 = store
        .post(String::from("hi"), bob.clone(), String::from("alice"), 7, 1_000, PRICE)
        .unwrap();
    let r2 = store
        .post(String::from("hi"), bob, String::from("alice"), 7, 1_000, PRICE)
        .unwrap();
    assert_eq!(r1, r2);

    let alice = PosterId::AccountId(String::from("alice"));
    assert_eq!(store.get_send_posts_by_account(alice).len(), 1);
    let bob_id = PosterId::AccountId(String::from("bob"));
    assert_eq!(store.get_receive_posts_by_account(bob_id).len(), 1);
}

#[test]
fn posts_differing_only_in_timestamp_are_both_kept() {
    let mut store = PostIt::new();
    let bob = PosterIdWithHint::AccountId(String::from("bob"));
    store
        .post(String::from("hi"), bob.clone(), String::from("alice"), 7, 1_000, PRICE)
        .unwrap();
    store
        .post(String::from("hi"), bob, String::from("alice"), 8, 1_000, PRICE)
        .unwrap();
    let alice = PosterId::AccountId(String::from("alice"));
    assert_eq!(store.get_send_posts_by_account(alice).len(), 2);
}

#[test]
fn hint_is_not_part_of_the_address() {
    let mut store = PostIt::new();
    let hash = hash32(3);
    store
        .post(
            String::from("x"),
            PosterIdWithHint::Base58CryptoHash(hash.clone(), String::from("first")),
            String::from("alice"),
            5,
            1_000_000,
            1,
        )
        .unwrap();
    store
        .post(
            String::from("x"),
            PosterIdWithHint::Base58CryptoHash(hash.clone(), String::from("second")),
            String::from("alice"),
            5,
            1_000_000,
            1,
        )
        .unwrap();
    // same address: one stored entry, carrying the later hint
    let got = store.get_receive_posts_by_account(PosterId::Base58CryptoHash(hash.clone()));
    assert_eq!(got.len(), 1);
    assert_eq!(
        got[0].receiver,
        PosterIdWithHint::Base58CryptoHash(hash, String::from("second"))
    );
}

#[test]
fn self_post_lands_on_both_sides_of_one_record() {
    let mut store = PostIt::new();
    store
        .post(
            String::from("note"),
            PosterIdWithHint::AccountId(String::from("alice")),
            String::from("alice"),
            1,
            1_000_000,
            1,
        )
        .unwrap();
    let alice = PosterId::AccountId(String::from("alice"));
    let sent = store.get_send_posts_by_account(alice.clone());
    let received = store.get_receive_posts_by_account(alice);
    assert_eq!(sent.len(), 1);
    assert_eq!(received.len(), 1);
    assert_eq!(sent[0], received[0]);
}

#[test]
fn rereads_agree() {
    let mut store = PostIt::new();
    let bob = PosterIdWithHint::AccountId(String::from("bob"));
    store
        .post(String::from("hi"), bob, String::from("alice"), 7, 1_000, PRICE)
        .unwrap();
    let alice = PosterId::AccountId(String::from("alice"));
    let first = store.get_send_posts_by_account(alice.clone());
    let second = store.get_send_posts_by_account(alice);
    assert_eq!(first, second);
    let bob_id = PosterId::AccountId(String::from("bob"));
    let r1 = store.get_receive_posts_by_account(bob_id.clone());
    let r2 = store.get_receive_posts_by_account(bob_id);
    assert_eq!(r1, r2);
    assert_eq!(store.get_public_posts(), store.get_public_posts());
}

#[test]
fn public_feed_appends_in_order_and_refunds() {
    let mut store = PostIt::new();
    // "alice" (5) + "howdy" (5) + 8 = 18 units
    let refund = store
        .post_to_public(String::from("howdy"), String::from("alice"), 3, 100, PRICE)
        .unwrap();
    assert_eq!(refund, 100 - 18 * PRICE);
    store
        .post_to_public(String::from("again"), String::from("bob"), 4, 100, PRICE)
        .unwrap();
    let feed = store.get_public_posts();
    assert_eq!(feed.len(), 2);
    assert_eq!(feed[0].sender, "alice");
    assert_eq!(feed[0].text, "howdy");
    assert_eq!(feed[0].timestamp, 3);
    assert_eq!(feed[1].sender, "bob");
    assert_eq!(feed[1].text, "again");
}

#[test]
fn public_feed_insufficient_deposit_fails() {
    let mut store = PostIt::new();
    let r = store.post_to_public(String::from("howdy"), String::from("alice"), 3, 35, PRICE);
    assert_eq!(r, Err(PostError::InsufficientDeposit));
    assert!(store.get_public_posts().is_empty());
}

#[test]
fn multibyte_text_is_charged_per_character() {
    let mut store = PostIt::new();
    // sender "ab" (2) + text of two non-ascii characters (2) + 8 = 12 units
    let refund = store
        .post_to_public(String::from("\u{00e9}\u{00e9}"), String::from("ab"), 1, 24, 1)
        .unwrap();
    assert_eq!(refund, 12);
}

fn build_post(text: &str, receiver: PosterIdWithHint, sender: &str, ts: u64) -> Post {
    let encrypted = matches!(receiver, PosterIdWithHint::Base58CryptoHash(..));
    Post {
        sender: PosterId::AccountId(String::from(sender)),
        receiver,
        text: String::from(text),
        timestamp: ts,
        encrypted,
    }
}

#[test]
fn storage_units_match_the_cost_model() {
    let post = build_post("hi", PosterIdWithHint::AccountId(String::from("bob")), "alice", 7);
    assert_eq!(post_it::accountant::post_storage_units(&post), HI_UNITS);
    let hinted = build_post(
        "hi",
        PosterIdWithHint::Base58CryptoHash(hash32(1), String::from("Bob")),
        "alice",
        7,
    );
    // 5 + (32 + 3) + 2 + 9 + 160
    assert_eq!(post_it::accountant::post_storage_units(&hinted), 211);
}
