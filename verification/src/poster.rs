//! The per-identity index record: what an identity sent and received.

use vstd::prelude::*;
use crate::ids::{IdView, PosterId, dup_bytes, dup_poster_id};
use crate::kmap::{EqKey, KMap};

verus! {

/// Per-identity index of posts sent and received: by counterparty in
/// insertion order, and in aggregate.  The aggregate containers are sets:
/// an address is never stored in them twice.
pub struct Poster {
    pub send_by_account: KMap<PosterId, Vec<Vec<u8>>>,
    pub receive_by_account: KMap<PosterId, Vec<Vec<u8>>>,
    pub send: Vec<Vec<u8>>,
    pub receive: Vec<Vec<u8>>,
}

/// Abstract value of a `Poster`.
#[verifier::ext_equal]
pub struct PosterV {
    pub send_by_account: Map<IdView, Seq<Seq<u8>>>,
    pub receive_by_account: Map<IdView, Seq<Seq<u8>>>,
    pub send: Seq<Seq<u8>>,
    pub receive: Seq<Seq<u8>>,
}

impl DeepView for Poster {
    type V = PosterV;

    open spec fn deep_view(&self) -> PosterV {
        PosterV {
            send_by_account: self.send_by_account@,
            receive_by_account: self.receive_by_account@,
            send: self.send.deep_view(),
            receive: self.receive.deep_view(),
        }
    }
}

/// A record with four empty containers.
pub open spec fn empty_poster() -> PosterV {
    PosterV {
        send_by_account: Map::empty(),
        receive_by_account: Map::empty(),
        send: Seq::empty(),
        receive: Seq::empty(),
    }
}

/// The bucket of a counterparty, or an empty one where none exists yet.
pub open spec fn bucket_or_empty(m: Map<IdView, Seq<Seq<u8>>>, c: IdView) -> Seq<Seq<u8>> {
    if m.contains_key(c) {
        m[c]
    } else {
        Seq::empty()
    }
}

/// A sequence used as a set: the address is appended only when absent.
pub open spec fn add_to_set(s: Seq<Seq<u8>>, a: Seq<u8>) -> Seq<Seq<u8>> {
    if s.contains(a) {
        s
    } else {
        s.push(a)
    }
}

/// The index after recording one send to counterparty `c`.
pub open spec fn with_send(p: PosterV, c: IdView, a: Seq<u8>) -> PosterV {
    PosterV {
        send_by_account: p.send_by_account.insert(c, bucket_or_empty(p.send_by_account, c).push(a)),
        send: add_to_set(p.send, a),
        ..p
    }
}

/// The index after recording one receive from counterparty `c`.
pub open spec fn with_receive(p: PosterV, c: IdView, a: Seq<u8>) -> PosterV {
    PosterV {
        receive_by_account: p.receive_by_account.insert(
            c,
            bucket_or_empty(p.receive_by_account, c).push(a),
        ),
        receive: add_to_set(p.receive, a),
        ..p
    }
}

/// Whether the aggregate set holds the address.
fn set_contains(s: &Vec<Vec<u8>>, a: &Vec<u8>) -> (r: bool)
    ensures
        r == s.deep_view().contains(a.deep_view()),
{
    let n = s.len();
    let mut i: usize = 0;
    while i < n
        invariant
            n == s@.len(),
            0 <= i <= n,
            forall|j: int| 0 <= j < i ==> s.deep_view()[j] != a.deep_view(),
        decreases n - i,
    {
        if s[i].eq_key(a) {
            proof {
                assert(s.deep_view()[i as int] == a.deep_view());
                assert(s.deep_view().contains(a.deep_view()));
            }
            return true;
        }
        i += 1;
    }
    proof {
        if s.deep_view().contains(a.deep_view()) {
            let j = choose|j: int|
                0 <= j < s.deep_view().len() && s.deep_view()[j] == a.deep_view();
            assert(s.deep_view()[j] != a.deep_view());
        }
    }
    false
}

impl Poster {
    /// A record with four empty containers.
    pub fn empty() -> (r: Poster)
        ensures
            r.deep_view() == empty_poster(),
    {
        let r = Poster {
            send_by_account: KMap::new(),
            receive_by_account: KMap::new(),
            send: Vec::new(),
            receive: Vec::new(),
        };
        proof {
            assert(r.deep_view() =~~= empty_poster());
        }
        r
    }

    /// Appends the address to the counterparty's send bucket, creating the
    /// bucket when absent, and adds it to the aggregate send set.
    pub fn record_send(&mut self, counterparty: &PosterId, addr: Vec<u8>)
        ensures
            final(self).deep_view() == with_send(
                old(self).deep_view(),
                counterparty.deep_view(),
                addr.deep_view(),
            ),
    {
        let ghost adv = addr.deep_view();
        let ghost p0 = self.deep_view();
        let mut bucket = self.send_by_account.take_or(counterparty, Vec::new());
        proof {
            assert(bucket.deep_view() =~= bucket_or_empty(
                p0.send_by_account,
                counterparty.deep_view(),
            ));
        }
        let ghost b0 = bucket.deep_view();
        bucket.push(dup_bytes(&addr));
        proof {
            assert(bucket.deep_view() =~= b0.push(adv));
        }
        self.send_by_account.insert(dup_poster_id(counterparty), bucket);
        if !set_contains(&self.send, &addr) {
            self.send.push(addr);
            proof {
                assert(self.send.deep_view() =~= add_to_set(p0.send, adv));
            }
        }
        proof {
            assert(self.deep_view() =~~= with_send(p0, counterparty.deep_view(), adv));
        }
    }

    /// Appends the address to the counterparty's receive bucket, creating
    /// the bucket when absent, and adds it to the aggregate receive set.
    pub fn record_receive(&mut self, counterparty: &PosterId, addr: Vec<u8>)
        ensures
            final(self).deep_view() == with_receive(
                old(self).deep_view(),
                counterparty.deep_view(),
                addr.deep_view(),
            ),
    {
        let ghost adv = addr.deep_view();
        let ghost p0 = self.deep_view();
        let mut bucket = self.receive_by_account.take_or(counterparty, Vec::new());
        proof {
            assert(bucket.deep_view() =~= bucket_or_empty(
                p0.receive_by_account,
                counterparty.deep_view(),
            ));
        }
        let ghost b0 = bucket.deep_view();
        bucket.push(dup_bytes(&addr));
        proof {
            assert(bucket.deep_view() =~= b0.push(adv));
        }
        self.receive_by_account.insert(dup_poster_id(counterparty), bucket);
        if !set_contains(&self.receive, &addr) {
            self.receive.push(addr);
            proof {
                assert(self.receive.deep_view() =~= add_to_set(p0.receive, adv));
            }
        }
        proof {
            assert(self.deep_view() =~~= with_receive(p0, counterparty.deep_view(), adv));
        }
    }
}

} // verus!
