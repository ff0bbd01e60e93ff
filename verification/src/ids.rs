//! Participant identities and post records, with their abstract values.

use vstd::prelude::*;
use crate::kmap::EqKey;

verus! {

/// A participant reference: a stable account identifier, or an anonymous
/// identity keyed by a content hash.
#[derive(Clone, Debug, PartialEq, Eq)]
pub enum PosterId {
    AccountId(String),
    Base58CryptoHash(Vec<u8>),
}

/// A receiver-side participant reference.  The hash-keyed variant carries a
/// human-readable display hint that is never part of any hashed content.
#[derive(Clone, Debug, PartialEq, Eq)]
pub enum PosterIdWithHint {
    AccountId(String),
    Base58CryptoHash(Vec<u8>, String),
}

/// Abstract value of a `PosterId`.
pub enum IdView {
    Account(Seq<char>),
    Hash(Seq<u8>),
}

/// Abstract value of a `PosterIdWithHint`.
pub enum IdHintView {
    Account(Seq<char>),
    Hash(Seq<u8>, Seq<char>),
}

/// The identity a receiver reference is keyed by: the hint is dropped.
pub open spec fn key_of(r: IdHintView) -> IdView {
    match r {
        IdHintView::Account(name) => IdView::Account(name),
        IdHintView::Hash(hash, _) => IdView::Hash(hash),
    }
}

/// An addressed post.  `encrypted` is true exactly when the receiver is
/// addressed by content hash, so the text has no recoverable plaintext
/// reader and is treated as ciphertext by consumers.
#[derive(Clone, Debug, PartialEq, Eq)]
pub struct Post {
    pub sender: PosterId,
    pub receiver: PosterIdWithHint,
    pub text: String,
    pub timestamp: u64,
    pub encrypted: bool,
}

/// Abstract value of a `Post`.
pub struct PostView {
    pub sender: IdView,
    pub receiver: IdHintView,
    pub text: Seq<char>,
    pub timestamp: u64,
    pub encrypted: bool,
}

/// A broadcast post on the public feed.
#[derive(Clone, Debug, PartialEq, Eq)]
pub struct PublicPost {
    pub sender: String,
    pub text: String,
    pub timestamp: u64,
}

/// Abstract value of a `PublicPost`.
pub struct PublicPostView {
    pub sender: Seq<char>,
    pub text: Seq<char>,
    pub timestamp: u64,
}

impl DeepView for PosterId {
    type V = IdView;

    open spec fn deep_view(&self) -> IdView {
        match self {
            PosterId::AccountId(name) => IdView::Account(name@),
            PosterId::Base58CryptoHash(hash) => IdView::Hash(hash.deep_view()),
        }
    }
}

impl DeepView for PosterIdWithHint {
    type V = IdHintView;

    open spec fn deep_view(&self) -> IdHintView {
        match self {
            PosterIdWithHint::AccountId(name) => IdHintView::Account(name@),
            PosterIdWithHint::Base58CryptoHash(hash, hint) => IdHintView::Hash(
                hash.deep_view(),
                hint@,
            ),
        }
    }
}

impl DeepView for Post {
    type V = PostView;

    open spec fn deep_view(&self) -> PostView {
        PostView {
            sender: self.sender.deep_view(),
            receiver: self.receiver.deep_view(),
            text: self.text@,
            timestamp: self.timestamp,
            encrypted: self.encrypted,
        }
    }
}

impl DeepView for PublicPost {
    type V = PublicPostView;

    open spec fn deep_view(&self) -> PublicPostView {
        PublicPostView { sender: self.sender@, text: self.text@, timestamp: self.timestamp }
    }
}

/// The abstract value of a byte vector is its byte sequence.
pub broadcast proof fn lemma_bytes_deep_view(v: Vec<u8>)
    ensures
        #[trigger] v.deep_view() == v@,
{
    assert(v.deep_view() =~= v@);
}

impl EqKey for Vec<u8> {
    fn eq_key(&self, other: &Self) -> (r: bool)
        ensures
            r == (self.deep_view() == other.deep_view()),
    {
        if self.len() != other.len() {
            proof {
                assert(self.deep_view().len() == self@.len());
                assert(other.deep_view().len() == other@.len());
            }
            return false;
        }
        let n = self.len();
        let mut i: usize = 0;
        while i < n
            invariant
                n == self@.len(),
                self@.len() == other@.len(),
                0 <= i <= n,
                forall|j: int| 0 <= j < i ==> self@[j] == other@[j],
            decreases n - i,
        {
            if self[i] != other[i] {
                proof {
                    assert(self.deep_view()[i as int] == self@[i as int]);
                    assert(other.deep_view()[i as int] == other@[i as int]);
                }
                return false;
            }
            i += 1;
        }
        proof {
            assert(self.deep_view() =~= other.deep_view());
        }
        true
    }
}

impl EqKey for PosterId {
    fn eq_key(&self, other: &Self) -> (r: bool)
        ensures
            r == (self.deep_view() == other.deep_view()),
    {
        match (self, other) {
            (PosterId::AccountId(a), PosterId::AccountId(b)) => *a == *b,
            (PosterId::Base58CryptoHash(a), PosterId::Base58CryptoHash(b)) => a.eq_key(b),
            _ => false,
        }
    }
}

/// A copy of a byte vector with the same abstract value.
pub fn dup_bytes(v: &Vec<u8>) -> (r: Vec<u8>)
    ensures
        r@ == v@,
        r.deep_view() == v.deep_view(),
{
    let r = v.clone();
    proof {
        assert(r@ =~= v@);
        assert(r.deep_view() =~= v.deep_view());
    }
    r
}

/// A copy of the identity with the same abstract value.
pub fn dup_poster_id(id: &PosterId) -> (r: PosterId)
    ensures
        r.deep_view() == id.deep_view(),
{
    broadcast use lemma_bytes_deep_view;

    match id {
        PosterId::AccountId(name) => PosterId::AccountId(name.clone()),
        PosterId::Base58CryptoHash(hash) => {
            let h = hash.clone();
            proof {
                assert(h@ =~= hash@);
            }
            PosterId::Base58CryptoHash(h)
        },
    }
}

/// A copy of the receiver reference with the same abstract value.
pub fn dup_poster_id_with_hint(r: &PosterIdWithHint) -> (d: PosterIdWithHint)
    ensures
        d.deep_view() == r.deep_view(),
{
    match r {
        PosterIdWithHint::AccountId(name) => PosterIdWithHint::AccountId(name.clone()),
        PosterIdWithHint::Base58CryptoHash(hash, hint) => PosterIdWithHint::Base58CryptoHash(
            dup_bytes(hash),
            hint.clone(),
        ),
    }
}

/// A copy of the post with the same abstract value.
pub fn dup_post(p: &Post) -> (r: Post)
    ensures
        r.deep_view() == p.deep_view(),
{
    Post {
        sender: dup_poster_id(&p.sender),
        receiver: dup_poster_id_with_hint(&p.receiver),
        text: p.text.clone(),
        timestamp: p.timestamp,
        encrypted: p.encrypted,
    }
}

/// A copy of the public post with the same abstract value.
pub fn dup_public_post(p: &PublicPost) -> (r: PublicPost)
    ensures
        r.deep_view() == p.deep_view(),
{
    PublicPost { sender: p.sender.clone(), text: p.text.clone(), timestamp: p.timestamp }
}

} // verus!
