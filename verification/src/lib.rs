//! A content-addressed message store.
//!
//! Accounts exchange short text posts, either publicly on an append-only
//! feed or addressed to a counterparty identified by an account id or by a
//! content hash.  Every addressed post is stored once, under the SHA-256
//! digest of its canonical encoding, and indexed on both the sender's and
//! the receiver's side.  Storage growth is metered against a caller-supplied
//! deposit, and the excess is reported back for refund.

use vstd::prelude::*;

pub mod accountant;
pub mod codec;
pub mod ids;
pub mod kmap;
pub mod laws;
pub mod poster;
pub mod view;

use crate::accountant::{PostError, post_storage_units, post_units, public_post_storage_units,
    public_post_units, refund_extra_storage_deposit};
use crate::codec::{address_of, address_of_view};
use crate::ids::{IdHintView, IdView, Post, PostView, PosterId, PosterIdWithHint, PublicPost,
    PublicPostView, dup_bytes, dup_poster_id, key_of};
use crate::kmap::KMap;
use crate::poster::{Poster, PosterV, add_to_set, bucket_or_empty, empty_poster, with_receive,
    with_send};

verus! {

/// The whole store: the per-identity indices, the single source of truth
/// for addressed posts, and the public feed.
pub struct PostIt {
    pub accounts: KMap<PosterId, Poster>,
    pub posts: KMap<Vec<u8>, Post>,
    pub public_posts: Vec<PublicPost>,
}

/// No address occurs twice.
pub open spec fn no_dup(s: Seq<Seq<u8>>) -> bool {
    forall|i: int, j: int| 0 <= i < j < s.len() ==> s[i] != s[j]
}

/// Whether some counterparty bucket holds the address.
pub open spec fn in_buckets(m: Map<IdView, Seq<Seq<u8>>>, a: Seq<u8>) -> bool {
    exists|c: IdView| #[trigger] m.contains_key(c) && m[c].contains(a)
}

/// Well-formedness of one index record against the post store: the
/// aggregate containers are duplicate-free, each aggregate holds exactly
/// the union of its buckets, and every indexed address is stored.
pub open spec fn poster_wf(p: PosterV, store: Map<Seq<u8>, PostView>) -> bool {
    &&& no_dup(p.send)
    &&& no_dup(p.receive)
    &&& (forall|a: Seq<u8>| #[trigger] p.send.contains(a) <==> in_buckets(p.send_by_account, a))
    &&& (forall|a: Seq<u8>|
        #[trigger] p.receive.contains(a) <==> in_buckets(p.receive_by_account, a))
    &&& (forall|a: Seq<u8>| #[trigger] p.send.contains(a) ==> store.contains_key(a))
    &&& (forall|a: Seq<u8>| #[trigger] p.receive.contains(a) ==> store.contains_key(a))
}

impl PostIt {
    /// Every index record is well formed against the post store; indices
    /// are only updated after the post they point at is stored.
    pub open spec fn wf(self) -> bool {
        forall|id: IdView| #[trigger] self.accounts@.contains_key(id) ==> poster_wf(
            self.accounts@[id],
            self.posts@,
        )
    }
}

/// The record an addressed post is stored as.
pub open spec fn post_record(
    text: Seq<char>,
    receiver: IdHintView,
    sender_name: Seq<char>,
    timestamp: u64,
) -> PostView {
    PostView {
        sender: IdView::Account(sender_name),
        receiver: receiver,
        text: text,
        timestamp: timestamp,
        encrypted: receiver is Hash,
    }
}

/// The record of an identity, or a fresh one where none exists yet.
pub open spec fn poster_or_empty(m: Map<IdView, PosterV>, id: IdView) -> PosterV {
    if m.contains_key(id) {
        m[id]
    } else {
        empty_poster()
    }
}

/// The index map after one addressed post: the sender's record gains a
/// send entry, then the receiver's record gains a receive entry.  When the
/// sender addresses itself the one record gains both.
pub open spec fn accounts_after_post(
    m: Map<IdView, PosterV>,
    sender: IdView,
    receiver: IdView,
    a: Seq<u8>,
) -> Map<IdView, PosterV> {
    let m1 = m.insert(sender, with_send(poster_or_empty(m, sender), receiver, a));
    m1.insert(receiver, with_receive(poster_or_empty(m1, receiver), sender, a))
}

proof fn lemma_poster_wf_store_grows(
    p: PosterV,
    store: Map<Seq<u8>, PostView>,
    a: Seq<u8>,
    rec: PostView,
)
    requires
        poster_wf(p, store),
    ensures
        poster_wf(p, store.insert(a, rec)),
{
}

/// Membership in a sequence used as a set, after adding one address.
pub proof fn lemma_add_to_set_members(s: Seq<Seq<u8>>, a: Seq<u8>)
    ensures
        forall|x: Seq<u8>| #[trigger] add_to_set(s, a).contains(x) <==> (s.contains(x) || x == a),
        no_dup(s) ==> no_dup(add_to_set(s, a)),
{
    let t = add_to_set(s, a);
    assert forall|x: Seq<u8>| #[trigger] t.contains(x) implies (s.contains(x) || x == a) by {
        if !s.contains(a) {
            let i = choose|i: int| 0 <= i < t.len() && t[i] == x;
            if i < s.len() {
                assert(s[i] == x);
                assert(s.contains(x));
            }
        }
    }
    assert forall|x: Seq<u8>| (s.contains(x) || x == a) implies #[trigger] t.contains(x) by {
        if s.contains(x) {
            let i = choose|i: int| 0 <= i < s.len() && s[i] == x;
            assert(t[i] == x);
        } else {
            if s.contains(a) {
                let i = choose|i: int| 0 <= i < s.len() && s[i] == a;
                assert(t[i] == x);
            } else {
                assert(t[s.len() as int] == x);
            }
        }
    }
    if no_dup(s) && !s.contains(a) {
        assert forall|i: int, j: int| 0 <= i < j < t.len() implies t[i] != t[j] by {
            if j == t.len() - 1 {
                assert(s.contains(s[i]));
            }
        }
    }
}

proof fn lemma_with_send_wf(p: PosterV, store: Map<Seq<u8>, PostView>, c: IdView, a: Seq<u8>)
    requires
        poster_wf(p, store),
        store.contains_key(a),
    ensures
        poster_wf(with_send(p, c, a), store),
{
    let q = with_send(p, c, a);
    lemma_add_to_set_members(p.send, a);
    let nb = q.send_by_account;
    assert forall|x: Seq<u8>| #[trigger] q.send.contains(x) implies in_buckets(nb, x) by {
        if x == a {
            assert(nb[c] == bucket_or_empty(p.send_by_account, c).push(a));
            assert(nb[c][nb[c].len() - 1] == a);
            assert(nb.contains_key(c) && nb[c].contains(x));
        } else {
            assert(p.send.contains(x));
            let c0 = choose|c0: IdView| #[trigger]
                p.send_by_account.contains_key(c0) && p.send_by_account[c0].contains(x);
            if c0 == c {
                let i = choose|i: int|
                    0 <= i < p.send_by_account[c0].len() && p.send_by_account[c0][i] == x;
                assert(nb[c][i] == x);
                assert(nb.contains_key(c) && nb[c].contains(x));
            } else {
                assert(nb.contains_key(c0) && nb[c0].contains(x));
            }
        }
    }
    assert forall|x: Seq<u8>| in_buckets(nb, x) implies #[trigger] q.send.contains(x) by {
        let c0 = choose|c0: IdView| #[trigger] nb.contains_key(c0) && nb[c0].contains(x);
        if c0 == c {
            let ob = bucket_or_empty(p.send_by_account, c);
            let i = choose|i: int| 0 <= i < nb[c0].len() && nb[c0][i] == x;
            if i < ob.len() {
                assert(ob[i] == x);
                assert(ob.contains(x));
                assert(p.send_by_account.contains_key(c) && p.send_by_account[c].contains(x));
                assert(in_buckets(p.send_by_account, x));
            } else {
                assert(x == a);
            }
        } else {
            assert(in_buckets(p.send_by_account, x));
        }
    }
    assert forall|x: Seq<u8>| #[trigger] q.send.contains(x) implies store.contains_key(x) by {
        if x != a {
            assert(p.send.contains(x));
        }
    }
}

proof fn lemma_with_receive_wf(p: PosterV, store: Map<Seq<u8>, PostView>, c: IdView, a: Seq<u8>)
    requires
        poster_wf(p, store),
        store.contains_key(a),
    ensures
        poster_wf(with_receive(p, c, a), store),
{
    let q = with_receive(p, c, a);
    lemma_add_to_set_members(p.receive, a);
    let nb = q.receive_by_account;
    assert forall|x: Seq<u8>| #[trigger] q.receive.contains(x) implies in_buckets(nb, x) by {
        if x == a {
            assert(nb[c] == bucket_or_empty(p.receive_by_account, c).push(a));
            assert(nb[c][nb[c].len() - 1] == a);
            assert(nb.contains_key(c) && nb[c].contains(x));
        } else {
            assert(p.receive.contains(x));
            let c0 = choose|c0: IdView| #[trigger]
                p.receive_by_account.contains_key(c0) && p.receive_by_account[c0].contains(x);
            if c0 == c {
                let i = choose|i: int|
                    0 <= i < p.receive_by_account[c0].len() && p.receive_by_account[c0][i] == x;
                assert(nb[c][i] == x);
                assert(nb.contains_key(c) && nb[c].contains(x));
            } else {
                assert(nb.contains_key(c0) && nb[c0].contains(x));
            }
        }
    }
    assert forall|x: Seq<u8>| in_buckets(nb, x) implies #[trigger] q.receive.contains(x) by {
        let c0 = choose|c0: IdView| #[trigger] nb.contains_key(c0) && nb[c0].contains(x);
        if c0 == c {
            let ob = bucket_or_empty(p.receive_by_account, c);
            let i = choose|i: int| 0 <= i < nb[c0].len() && nb[c0][i] == x;
            if i < ob.len() {
                assert(ob[i] == x);
                assert(ob.contains(x));
                assert(p.receive_by_account.contains_key(c) && p.receive_by_account[c].contains(
                    x,
                ));
                assert(in_buckets(p.receive_by_account, x));
            } else {
                assert(x == a);
            }
        } else {
            assert(in_buckets(p.receive_by_account, x));
        }
    }
    assert forall|x: Seq<u8>| #[trigger] q.receive.contains(x) implies store.contains_key(x) by {
        if x != a {
            assert(p.receive.contains(x));
        }
    }
}

proof fn lemma_empty_poster_wf(store: Map<Seq<u8>, PostView>)
    ensures
        poster_wf(empty_poster(), store),
{
    let p = empty_poster();
    assert forall|a: Seq<u8>| in_buckets(p.send_by_account, a) implies #[trigger] p.send.contains(
        a,
    ) by {
        let c = choose|c: IdView| #[trigger]
            p.send_by_account.contains_key(c) && p.send_by_account[c].contains(a);
    }
    assert forall|a: Seq<u8>| in_buckets(p.receive_by_account, a) implies #[trigger]
        p.receive.contains(a) by {
        let c = choose|c: IdView| #[trigger]
            p.receive_by_account.contains_key(c) && p.receive_by_account[c].contains(a);
    }
}

impl PostIt {
    /// A store with no accounts, no posts and an empty public feed.
    pub fn new() -> (r: PostIt)
        ensures
            r.wf(),
            r.accounts@ == Map::<IdView, PosterV>::empty(),
            r.posts@ == Map::<Seq<u8>, PostView>::empty(),
            r.public_posts@ == Seq::<PublicPost>::empty(),
    {
        PostIt { accounts: KMap::new(), posts: KMap::new(), public_posts: Vec::new() }
    }

    /// Appends a public post by `sender` to the feed and settles the
    /// attached deposit against its storage cost.  Fails, changing
    /// nothing, exactly when the deposit is short; on success the refund
    /// owed back to the caller is returned.
    pub fn post_to_public(
        &mut self,
        text: String,
        sender: String,
        timestamp: u64,
        attached_deposit: u128,
        storage_byte_price: u128,
    ) -> (r: Result<u128, PostError>)
        requires
            old(self).wf(),
        ensures
            final(self).wf(),
            ({
                let p = (PublicPostView { sender: sender@, text: text@, timestamp: timestamp });
                match r {
                    Ok(refund) => {
                        &&& public_post_units(p) * storage_byte_price <= attached_deposit
                        &&& refund == attached_deposit - public_post_units(p) * storage_byte_price
                        &&& final(self).public_posts.deep_view() == old(
                            self,
                        ).public_posts.deep_view().push(p)
                        &&& final(self).accounts == old(self).accounts
                        &&& final(self).posts == old(self).posts
                    },
                    Err(e) => {
                        &&& e == PostError::InsufficientDeposit
                        &&& attached_deposit < public_post_units(p) * storage_byte_price
                        &&& *final(self) == *old(self)
                    },
                }
            }),
    {
        let post = PublicPost { sender: sender, text: text, timestamp: timestamp };
        let units = public_post_storage_units(&post);
        match refund_extra_storage_deposit(units, 0, attached_deposit, storage_byte_price) {
            Err(e) => Err(e),
            Ok(refund) => {
                let ghost feed0 = self.public_posts.deep_view();
                let ghost pv = post.deep_view();
                self.public_posts.push(post);
                proof {
                    assert(self.public_posts.deep_view() =~= feed0.push(pv));
                }
                Ok(refund)
            },
        }
    }

    /// Runs the full posting protocol: builds the post record for the
    /// authenticated `sender`, stores it under its content address, indexes
    /// it on the sender's and the receiver's side, and settles the attached
    /// deposit against the storage cost.  Fails, changing nothing, exactly
    /// when the deposit is short; on success the refund owed back to the
    /// caller is returned.
    pub fn post(
        &mut self,
        text: String,
        account_id: PosterIdWithHint,
        sender: String,
        timestamp: u64,
        attached_deposit: u128,
        storage_byte_price: u128,
    ) -> (r: Result<u128, PostError>)
        requires
            old(self).wf(),
        ensures
            final(self).wf(),
            ({
                let rec = post_record(text@, account_id.deep_view(), sender@, timestamp);
                let a = address_of_view(rec);
                match r {
                    Ok(refund) => {
                        &&& post_units(rec) * storage_byte_price <= attached_deposit
                        &&& refund == attached_deposit - post_units(rec) * storage_byte_price
                        &&& final(self).posts@ == old(self).posts@.insert(a, rec)
                        &&& final(self).accounts@ == accounts_after_post(
                            old(self).accounts@,
                            IdView::Account(sender@),
                            key_of(account_id.deep_view()),
                            a,
                        )
                        &&& final(self).public_posts == old(self).public_posts
                    },
                    Err(e) => {
                        &&& e == PostError::InsufficientDeposit
                        &&& attached_deposit < post_units(rec) * storage_byte_price
                        &&& *final(self) == *old(self)
                    },
                }
            }),
    {
        let ghost skey = IdView::Account(sender@);
        let ghost rkey = key_of(account_id.deep_view());
        let sender_id = PosterId::AccountId(sender);
        let record_sender = dup_poster_id(&sender_id);
        let (receiver_id, encrypted): (PosterId, bool) = match &account_id {
            PosterIdWithHint::AccountId(name) => (PosterId::AccountId(name.clone()), false),
            PosterIdWithHint::Base58CryptoHash(hash, _) => (
                PosterId::Base58CryptoHash(dup_bytes(hash)),
                true,
            ),
        };
        proof {
            assert(receiver_id.deep_view() == rkey);
            assert(sender_id.deep_view() == skey);
        }
        let post = Post {
            sender: record_sender,
            receiver: account_id,
            text: text,
            timestamp: timestamp,
            encrypted: encrypted,
        };
        let ghost rec = post.deep_view();
        let units = post_storage_units(&post);
        match refund_extra_storage_deposit(units, 0, attached_deposit, storage_byte_price) {
            Err(e) => Err(e),
            Ok(refund) => {
                let ghost m0 = self.accounts@;
                let ghost store0 = self.posts@;
                let addr = address_of(&post);
                let ghost a = addr.deep_view();
                self.posts.insert(dup_bytes(&addr), post);
                proof {
                    assert(self.posts@ == store0.insert(a, rec));
                }
                let mut sender_poster = self.accounts.take_or(&sender_id, Poster::empty());
                proof {
                    if m0.contains_key(skey) {
                        lemma_poster_wf_store_grows(m0[skey], store0, a, rec);
                    } else {
                        lemma_empty_poster_wf(self.posts@);
                    }
                    assert(poster_wf(sender_poster.deep_view(), self.posts@));
                    lemma_with_send_wf(sender_poster.deep_view(), self.posts@, rkey, a);
                }
                sender_poster.record_send(&receiver_id, dup_bytes(&addr));
                self.accounts.insert(dup_poster_id(&sender_id), sender_poster);
                let ghost m1 = self.accounts@;
                proof {
                    assert(m1 =~= m0.insert(skey, with_send(poster_or_empty(m0, skey), rkey, a)));
                }
                let mut receiver_poster = self.accounts.take_or(&receiver_id, Poster::empty());
                proof {
                    if m1.contains_key(rkey) {
                        if rkey == skey {
                            assert(poster_wf(m1[rkey], self.posts@));
                        } else {
                            assert(m1[rkey] == m0[rkey]);
                            lemma_poster_wf_store_grows(m0[rkey], store0, a, rec);
                        }
                    } else {
                        lemma_empty_poster_wf(self.posts@);
                    }
                    assert(poster_wf(receiver_poster.deep_view(), self.posts@));
                    lemma_with_receive_wf(receiver_poster.deep_view(), self.posts@, skey, a);
                }
                receiver_poster.record_receive(&sender_id, addr);
                self.accounts.insert(receiver_id, receiver_poster);
                proof {
                    assert(self.accounts@ =~= accounts_after_post(m0, skey, rkey, a));
                    assert forall|id: IdView| #[trigger]
                        self.accounts@.contains_key(id) implies poster_wf(
                        self.accounts@[id],
                        self.posts@,
                    ) by {
                        if id != skey && id != rkey {
                            assert(m0.contains_key(id));
                            assert(self.accounts@[id] == m0[id]);
                            lemma_poster_wf_store_grows(m0[id], store0, a, rec);
                        }
                    }
                }
                Ok(refund)
            },
        }
    }
}

} // verus!
