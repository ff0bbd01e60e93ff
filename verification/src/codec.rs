//! Canonical encoding of posts and their content addresses.
//!
//! A post's content address is the SHA-256 digest of a canonical byte
//! encoding that fixes the field order and the encoding of every field, so
//! that two posts with the same sender, receiver identity, text, timestamp
//! and encryption flag always collide to the same address.  The receiver's
//! display hint is left out of the encoding on purpose: it is never part of
//! the hashed content.

use vstd::prelude::*;
use vstd::utf8::encode_utf8;
use crate::ids::{
    IdView, Post, PostView, PosterId, PosterIdWithHint, key_of, lemma_bytes_deep_view,
};

verus! {

/// Eight little-endian bytes of a 64-bit value.
pub open spec fn le_bytes(n: u64) -> Seq<u8> {
    seq![
        (n & 0xff) as u8,
        ((n >> 8) & 0xff) as u8,
        ((n >> 16) & 0xff) as u8,
        ((n >> 24) & 0xff) as u8,
        ((n >> 32) & 0xff) as u8,
        ((n >> 40) & 0xff) as u8,
        ((n >> 48) & 0xff) as u8,
        ((n >> 56) & 0xff) as u8,
    ]
}

/// Canonical encoding of an identity: a variant tag, then the length and
/// bytes of the payload.
pub open spec fn id_canon(id: IdView) -> Seq<u8> {
    match id {
        IdView::Account(name) => seq![0u8] + le_bytes(encode_utf8(name).len() as u64)
            + encode_utf8(name),
        IdView::Hash(hash) => seq![1u8] + le_bytes(hash.len() as u64) + hash,
    }
}

/// Canonical encoding of a post: sender identity, receiver identity
/// (without its hint), length-prefixed text, timestamp, encryption flag.
pub open spec fn canonical_encoding(p: PostView) -> Seq<u8> {
    id_canon(p.sender) + id_canon(key_of(p.receiver)) + le_bytes(
        encode_utf8(p.text).len() as u64,
    ) + encode_utf8(p.text) + le_bytes(p.timestamp) + seq![
        if p.encrypted {
            1u8
        } else {
            0u8
        },
    ]
}

/// The SHA-256 digest of a byte sequence, as the host computes it.
pub uninterp spec fn sha256_of(bytes: Seq<u8>) -> Seq<u8>;

/// The content address of a post: the digest of its canonical encoding.
pub open spec fn address_of_view(p: PostView) -> Seq<u8> {
    sha256_of(canonical_encoding(p))
}

/// Relies on `near_sdk::env::sha256`: the 32-byte SHA-256 digest of the
/// input bytes, a function of the input bytes alone.
#[verifier::external_body]
fn sha256(bytes: &Vec<u8>) -> (r: Vec<u8>)
    ensures
        r@ == sha256_of(bytes@),
        r@.len() == 32,
{
    near_sdk::env::sha256(bytes.as_slice())
}

fn push_bytes(out: &mut Vec<u8>, src: &Vec<u8>)
    ensures
        final(out)@ == old(out)@ + src@,
{
    let n = src.len();
    let mut i: usize = 0;
    while i < n
        invariant
            n == src@.len(),
            0 <= i <= n,
            out@ == old(out)@ + src@.take(i as int),
        decreases n - i,
    {
        out.push(src[i]);
        proof {
            assert(out@ =~= old(out)@ + src@.take(i + 1 as int));
        }
        i += 1;
    }
    proof {
        assert(src@.take(n as int) =~= src@);
    }
}

fn push_le_bytes(out: &mut Vec<u8>, n: u64)
    ensures
        final(out)@ == old(out)@ + le_bytes(n),
{
    proof {
        assert((n & 0xff) < 256 && ((n >> 8) & 0xff) < 256 && ((n >> 16) & 0xff) < 256 && ((n
            >> 24) & 0xff) < 256 && ((n >> 32) & 0xff) < 256 && ((n >> 40) & 0xff) < 256 && ((n
            >> 48) & 0xff) < 256 && ((n >> 56) & 0xff) < 256) by (bit_vector);
    }
    out.push((n & 0xff) as u8);
    out.push(((n >> 8) & 0xff) as u8);
    out.push(((n >> 16) & 0xff) as u8);
    out.push(((n >> 24) & 0xff) as u8);
    out.push(((n >> 32) & 0xff) as u8);
    out.push(((n >> 40) & 0xff) as u8);
    out.push(((n >> 48) & 0xff) as u8);
    out.push(((n >> 56) & 0xff) as u8);
    proof {
        assert(out@ =~= old(out)@ + le_bytes(n));
    }
}

fn push_id_canon(out: &mut Vec<u8>, id: &PosterId)
    ensures
        final(out)@ == old(out)@ + id_canon(id.deep_view()),
{
    match id {
        PosterId::AccountId(name) => {
            out.push(0u8);
            let bytes = name.as_str().as_bytes_vec();
            push_le_bytes(out, bytes.len() as u64);
            push_bytes(out, &bytes);
            proof {
                assert(out@ =~= old(out)@ + id_canon(id.deep_view()));
            }
        },
        PosterId::Base58CryptoHash(hash) => {
            out.push(1u8);
            push_le_bytes(out, hash.len() as u64);
            push_bytes(out, hash);
            proof {
                broadcast use lemma_bytes_deep_view;

                assert(out@ =~= old(out)@ + id_canon(id.deep_view()));
            }
        },
    }
}

fn push_receiver_canon(out: &mut Vec<u8>, receiver: &PosterIdWithHint)
    ensures
        final(out)@ == old(out)@ + id_canon(key_of(receiver.deep_view())),
{
    match receiver {
        PosterIdWithHint::AccountId(name) => {
            out.push(0u8);
            let bytes = name.as_str().as_bytes_vec();
            push_le_bytes(out, bytes.len() as u64);
            push_bytes(out, &bytes);
            proof {
                assert(out@ =~= old(out)@ + id_canon(key_of(receiver.deep_view())));
            }
        },
        PosterIdWithHint::Base58CryptoHash(hash, _) => {
            out.push(1u8);
            push_le_bytes(out, hash.len() as u64);
            push_bytes(out, hash);
            proof {
                broadcast use lemma_bytes_deep_view;

                assert(out@ =~= old(out)@ + id_canon(key_of(receiver.deep_view())));
            }
        },
    }
}

/// The canonical byte encoding of a post; the receiver's hint is excluded.
pub fn canonical_bytes(post: &Post) -> (r: Vec<u8>)
    ensures
        r@ == canonical_encoding(post.deep_view()),
{
    let mut out: Vec<u8> = Vec::new();
    push_id_canon(&mut out, &post.sender);
    push_receiver_canon(&mut out, &post.receiver);
    let text_bytes = post.text.as_str().as_bytes_vec();
    push_le_bytes(&mut out, text_bytes.len() as u64);
    push_bytes(&mut out, &text_bytes);
    push_le_bytes(&mut out, post.timestamp);
    out.push(if post.encrypted {
        1u8
    } else {
        0u8
    });
    proof {
        assert(out@ =~= canonical_encoding(post.deep_view()));
    }
    out
}

/// The content address of a post.
pub fn address_of(post: &Post) -> (r: Vec<u8>)
    ensures
        r.deep_view() == address_of_view(post.deep_view()),
        r@.len() == 32,
{
    broadcast use lemma_bytes_deep_view;

    let bytes = canonical_bytes(post);
    sha256(&bytes)
}

} // verus!
