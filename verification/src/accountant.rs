//! Deposit settlement: metering storage growth against an attached deposit.

use vstd::prelude::*;
use vstd::string::StrSliceExecFns;
use crate::ids::{IdHintView, IdView, Post, PosterId, PosterIdWithHint, PostView, PublicPost,
    PublicPostView};

verus! {

/// Why a call failed.
#[derive(PartialEq, Eq, Structural, Clone, Copy, Debug)]
pub enum PostError {
    /// The attached deposit does not cover the storage cost of the call.
    InsufficientDeposit,
}

/// Storage units of an identity reference: one unit per character of an
/// account name, one per byte of a content hash.
pub open spec fn id_units(id: IdView) -> int {
    match id {
        IdView::Account(name) => name.len() as int,
        IdView::Hash(hash) => hash.len() as int,
    }
}

/// Storage units of a receiver reference, its display hint included: the
/// hint is stored with the post even though it is never hashed.
pub open spec fn id_hint_units(r: IdHintView) -> int {
    match r {
        IdHintView::Account(name) => name.len() as int,
        IdHintView::Hash(hash, hint) => hash.len() + hint.len() as int,
    }
}

/// Storage units charged for one addressed post: the record's fields
/// (identities, text, an 8-unit timestamp and a 1-unit flag) plus five
/// stored copies of its 32-unit content address: the store key, one bucket
/// entry and one aggregate entry on each side.
pub open spec fn post_units(p: PostView) -> int {
    id_units(p.sender) + id_hint_units(p.receiver) + p.text.len() + 9 + 160
}

/// Storage units charged for one public post.
pub open spec fn public_post_units(p: PublicPostView) -> int {
    p.sender.len() + p.text.len() + 8 as int
}

fn id_storage_units(id: &PosterId) -> (r: u128)
    ensures
        r == id_units(id.deep_view()),
        r <= 0xffff_ffff_ffff_ffff,
{
    match id {
        PosterId::AccountId(name) => name.as_str().unicode_len() as u128,
        PosterId::Base58CryptoHash(hash) => {
            proof {
                assert(hash.deep_view().len() == hash@.len());
            }
            hash.len() as u128
        },
    }
}

fn id_hint_storage_units(r: &PosterIdWithHint) -> (u: u128)
    ensures
        u == id_hint_units(r.deep_view()),
        u <= 0x1_ffff_ffff_ffff_fffe,
{
    match r {
        PosterIdWithHint::AccountId(name) => name.as_str().unicode_len() as u128,
        PosterIdWithHint::Base58CryptoHash(hash, hint) => {
            proof {
                assert(hash.deep_view().len() == hash@.len());
            }
            hash.len() as u128 + hint.as_str().unicode_len() as u128
        },
    }
}

/// The storage units an addressed post is charged for.
pub fn post_storage_units(post: &Post) -> (r: u128)
    ensures
        r == post_units(post.deep_view()),
{
    id_storage_units(&post.sender) + id_hint_storage_units(&post.receiver) + post.text.as_str()
        .unicode_len() as u128 + 169
}

/// The storage units a public post is charged for.
pub fn public_post_storage_units(post: &PublicPost) -> (r: u128)
    ensures
        r == public_post_units(post.deep_view()),
{
    post.sender.as_str().unicode_len() as u128 + post.text.as_str().unicode_len() as u128 + 8
}

/// Settles the deposit for an operation that used `storage_used` storage
/// units at the current unit price: validates that the deposit attached to
/// the call, less what the call already spent, covers the cost, and
/// returns the excess owed back to the caller.  Fails, changing nothing,
/// exactly when the remaining deposit is short.
pub fn refund_extra_storage_deposit(
    storage_used: u128,
    used_balance: u128,
    attached_deposit: u128,
    storage_byte_price: u128,
) -> (r: Result<u128, PostError>)
    ensures
        r is Ok <==> used_balance + storage_used * storage_byte_price <= attached_deposit,
        r is Ok ==> r->Ok_0 == attached_deposit - used_balance - storage_used
            * storage_byte_price,
        r is Err ==> r->Err_0 == PostError::InsufficientDeposit,
{
    match attached_deposit.checked_sub(used_balance) {
        None => Err(PostError::InsufficientDeposit),
        Some(available) => match storage_used.checked_mul(storage_byte_price) {
            None => Err(PostError::InsufficientDeposit),
            Some(required) => {
                if required <= available {
                    Ok(available - required)
                } else {
                    Err(PostError::InsufficientDeposit)
                }
            },
        },
    }
}

/// Whether a refund is worth transferring back: anything at or below one
/// unit is dust and is kept.
pub fn should_transfer_refund(refund: u128) -> (r: bool)
    ensures
        r == (refund > 1),
{
    refund > 1
}

} // verus!
