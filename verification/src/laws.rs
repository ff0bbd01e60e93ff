//! The store's governing properties, stated and proved once for all inputs.

use vstd::prelude::*;
use crate::PostIt;
use crate::accountant::{PostError, refund_extra_storage_deposit};
use crate::codec::{address_of_view, canonical_encoding};
use crate::ids::{IdView, PostView, key_of};
use crate::poster::{PosterV, with_receive, with_send};
use crate::{accounts_after_post, lemma_add_to_set_members, poster_or_empty};

verus! {

/// Determinism and deduplication of addressing: two posts with the same
/// sender, receiver identity, text, timestamp and encryption flag have the
/// same content address, whatever their receivers' display hints.
pub proof fn lemma_address_deterministic(p1: PostView, p2: PostView)
    requires
        p1.sender == p2.sender,
        key_of(p1.receiver) == key_of(p2.receiver),
        p1.text == p2.text,
        p1.timestamp == p2.timestamp,
        p1.encrypted == p2.encrypted,
    ensures
        address_of_view(p1) == address_of_view(p2),
{
    assert(canonical_encoding(p1) == canonical_encoding(p2));
}

/// Deduplication in the store: storing two posts at one address leaves
/// exactly one entry for it, holding the later post.
pub proof fn lemma_store_dedup(
    store: Map<Seq<u8>, PostView>,
    a: Seq<u8>,
    p1: PostView,
    p2: PostView,
)
    ensures
        store.insert(a, p1).insert(a, p2) == store.insert(a, p2),
        store.insert(a, p1).insert(a, p2).dom() == store.dom().insert(a),
{
    assert(store.insert(a, p1).insert(a, p2) =~= store.insert(a, p2));
    assert(store.insert(a, p1).insert(a, p2).dom() =~= store.dom().insert(a));
}

/// Index completeness: after a post from `sender` to `receiver` under
/// address `a`, the address is in the sender's aggregate send set and in
/// its bucket for the receiver, and symmetrically on the receiver's side.
pub proof fn lemma_index_complete(
    m: Map<IdView, PosterV>,
    sender: IdView,
    receiver: IdView,
    a: Seq<u8>,
)
    ensures
        ({
            let m2 = accounts_after_post(m, sender, receiver, a);
            &&& m2.contains_key(sender)
            &&& m2.contains_key(receiver)
            &&& m2[sender].send.contains(a)
            &&& m2[receiver].receive.contains(a)
            &&& m2[sender].send_by_account.contains_key(receiver)
            &&& m2[sender].send_by_account[receiver].contains(a)
            &&& m2[receiver].receive_by_account.contains_key(sender)
            &&& m2[receiver].receive_by_account[sender].contains(a)
        }),
{
    let p0 = poster_or_empty(m, sender);
    let q0 = with_send(p0, receiver, a);
    let m1 = m.insert(sender, q0);
    let p1 = poster_or_empty(m1, receiver);
    let m2 = accounts_after_post(m, sender, receiver, a);
    lemma_add_to_set_members(p0.send, a);
    lemma_add_to_set_members(p1.receive, a);
    assert(q0.send_by_account[receiver].last() == a);
    assert(q0.send_by_account[receiver].contains(a));
    assert(m2[receiver].receive_by_account[sender].last() == a);
    assert(m2[receiver].receive_by_account[sender].contains(a));
    if sender == receiver {
        assert(m2[sender].send == q0.send);
        assert(m2[sender].send_by_account == q0.send_by_account);
    } else {
        assert(m2[sender] == q0);
    }
}

/// A fresh address lands in exactly one bucket: where the address was in
/// no bucket of the sender's by-counterparty index before the post, it is
/// afterwards in the receiver's bucket and in no other.
pub proof fn lemma_exactly_one_bucket(p: PosterV, c: IdView, a: Seq<u8>)
    requires
        forall|c0: IdView| #[trigger] p.send_by_account.contains_key(c0)
            ==> !p.send_by_account[c0].contains(a),
    ensures
        ({
            let nb = with_send(p, c, a).send_by_account;
            &&& nb.contains_key(c)
            &&& nb[c].contains(a)
            &&& forall|c0: IdView|
                #[trigger] nb.contains_key(c0) && nb[c0].contains(a) ==> c0 == c
        }),
{
    let nb = with_send(p, c, a).send_by_account;
    assert(nb[c].last() == a);
    assert(nb[c].contains(a));
    assert forall|c0: IdView| #[trigger] nb.contains_key(c0) && nb[c0].contains(a) implies c0
        == c by {
        if c0 != c {
            assert(p.send_by_account.contains_key(c0));
            assert(nb[c0] == p.send_by_account[c0]);
        }
    }
}

/// The receive-side counterpart: a fresh address lands in exactly one
/// bucket of the receiver's by-counterparty index.
pub proof fn lemma_exactly_one_bucket_receive(p: PosterV, c: IdView, a: Seq<u8>)
    requires
        forall|c0: IdView| #[trigger] p.receive_by_account.contains_key(c0)
            ==> !p.receive_by_account[c0].contains(a),
    ensures
        ({
            let nb = with_receive(p, c, a).receive_by_account;
            &&& nb.contains_key(c)
            &&& nb[c].contains(a)
            &&& forall|c0: IdView|
                #[trigger] nb.contains_key(c0) && nb[c0].contains(a) ==> c0 == c
        }),
{
    let nb = with_receive(p, c, a).receive_by_account;
    assert(nb[c].last() == a);
    assert(nb[c].contains(a));
    assert forall|c0: IdView| #[trigger] nb.contains_key(c0) && nb[c0].contains(a) implies c0
        == c by {
        if c0 != c {
            assert(p.receive_by_account.contains_key(c0));
            assert(nb[c0] == p.receive_by_account[c0]);
        }
    }
}

/// Round trip: after one post, the stored record is among the posts that
/// `postsSentBy(sender)` and `postsReceivedBy(receiver)` return.
pub proof fn lemma_post_round_trip(
    s0: PostIt,
    s1: PostIt,
    sender: IdView,
    receiver: IdView,
    rec: PostView,
    a: Seq<u8>,
)
    requires
        s1.posts@ == s0.posts@.insert(a, rec),
        s1.accounts@ == accounts_after_post(s0.accounts@, sender, receiver, a),
    ensures
        s1.sent_posts(sender).contains(rec),
        s1.received_posts(receiver).contains(rec),
{
    lemma_index_complete(s0.accounts@, sender, receiver, a);
    let sent = s1.accounts@[sender].send;
    let i = choose|i: int| 0 <= i < sent.len() && sent[i] == a;
    assert(s1.sent_posts(sender)[i] == rec);
    assert(s1.sent_posts(sender).contains(rec));
    let rcvd = s1.accounts@[receiver].receive;
    let j = choose|j: int| 0 <= j < rcvd.len() && rcvd[j] == a;
    assert(s1.received_posts(receiver)[j] == rec);
    assert(s1.received_posts(receiver).contains(rec));
}

/// Idempotent re-reads: what `postsSentBy` returns is a function of the
/// state alone, so two reads with no intervening mutation agree.
pub proof fn lemma_idempotent_reread_sent(s: PostIt, id: IdView, r1: Seq<PostView>, r2: Seq<PostView>)
    requires
        r1 == s.sent_posts(id),
        r2 == s.sent_posts(id),
    ensures
        r1 == r2,
{
}

/// Idempotent re-reads on the receive side.
pub proof fn lemma_idempotent_reread_received(
    s: PostIt,
    id: IdView,
    r1: Seq<PostView>,
    r2: Seq<PostView>,
)
    requires
        r1 == s.received_posts(id),
        r2 == s.received_posts(id),
    ensures
        r1 == r2,
{
}

/// Deposit monotonicity: a settlement never hands out a refund unless the
/// cost fits in the remaining deposit, and then the refund is exactly the
/// remainder; as an unsigned amount it is never negative.
pub proof fn lemma_deposit_monotone(
    storage_used: u128,
    used_balance: u128,
    attached_deposit: u128,
    storage_byte_price: u128,
)
    ensures
        forall|refund: u128|
            #[trigger] call_ensures(
                refund_extra_storage_deposit,
                (storage_used, used_balance, attached_deposit, storage_byte_price),
                Ok::<u128, PostError>(refund),
            ) ==> used_balance + storage_used * storage_byte_price <= attached_deposit && refund
                == attached_deposit - used_balance - storage_used * storage_byte_price,
{
}

} // verus!
