//! Read accessors over the store.
//!
//! An identity that never posted or received has no record; the accessors
//! treat that as a defined empty result, not an error.

use vstd::prelude::*;
use vstd::pervasive::unreached;
use crate::PostIt;
use crate::ids::{IdView, Post, PostView, PosterId, PublicPost, dup_post, dup_public_post};

verus! {

/// The posts stored at a sequence of addresses, in that order.
pub open spec fn posts_at(store: Map<Seq<u8>, PostView>, addrs: Seq<Seq<u8>>) -> Seq<PostView> {
    Seq::new(addrs.len(), |i: int| store[addrs[i]])
}

impl PostIt {
    /// Every post the identity ever sent, one per address in its aggregate
    /// send set, in insertion order; empty for an unknown identity.
    pub open spec fn sent_posts(self, id: IdView) -> Seq<PostView> {
        if self.accounts@.contains_key(id) {
            posts_at(self.posts@, self.accounts@[id].send)
        } else {
            Seq::empty()
        }
    }

    /// Every post the identity ever received, in insertion order; empty
    /// for an unknown identity.
    pub open spec fn received_posts(self, id: IdView) -> Seq<PostView> {
        if self.accounts@.contains_key(id) {
            posts_at(self.posts@, self.accounts@[id].receive)
        } else {
            Seq::empty()
        }
    }

    /// The posts the identity received, fetched from the post store.
    pub fn get_receive_posts_by_account(&self, account_id: PosterId) -> (r: Vec<Post>)
        requires
            self.wf(),
        ensures
            r.deep_view() == self.received_posts(account_id.deep_view()),
    {
        let mut out: Vec<Post> = Vec::new();
        match self.accounts.get(&account_id) {
            None => {
                proof {
                    assert(out.deep_view() =~= self.received_posts(account_id.deep_view()));
                }
                out
            },
            Some(poster) => {
                let ghost id = account_id.deep_view();
                let ghost addrs = poster.deep_view().receive;
                let n = poster.receive.len();
                let mut i: usize = 0;
                while i < n
                    invariant
                        self.wf(),
                        n == poster.receive@.len(),
                        0 <= i <= n,
                        self.accounts@.contains_key(id),
                        poster.deep_view() == self.accounts@[id],
                        addrs == poster.deep_view().receive,
                        out.deep_view() =~= posts_at(self.posts@, addrs.take(i as int)),
                    decreases n - i,
                {
                    proof {
                        assert(addrs[i as int] == poster.receive@[i as int].deep_view());
                        assert(addrs.contains(addrs[i as int]));
                    }
                    let ghost o0 = out.deep_view();
                    match self.posts.get(&poster.receive[i]) {
                        Some(post) => {
                            let copy = dup_post(post);
                            proof {
                                assert(copy.deep_view() == self.posts@[addrs[i as int]]);
                            }
                            out.push(copy);
                        },
                        None => unreached(),
                    }
                    proof {
                        assert(out.deep_view() =~= o0.push(self.posts@[addrs[i as int]]));
                        assert(posts_at(self.posts@, addrs.take(i + 1 as int)) =~= posts_at(
                            self.posts@,
                            addrs.take(i as int),
                        ).push(self.posts@[addrs[i as int]]));
                    }
                    i += 1;
                }
                proof {
                    assert(addrs.take(n as int) =~= addrs);
                    assert(out.deep_view() =~= self.received_posts(id));
                }
                out
            },
        }
    }

    /// The posts the identity sent, fetched from the post store.
    pub fn get_send_posts_by_account(&self, account_id: PosterId) -> (r: Vec<Post>)
        requires
            self.wf(),
        ensures
            r.deep_view() == self.sent_posts(account_id.deep_view()),
    {
        let mut out: Vec<Post> = Vec::new();
        match self.accounts.get(&account_id) {
            None => {
                proof {
                    assert(out.deep_view() =~= self.sent_posts(account_id.deep_view()));
                }
                out
            },
            Some(poster) => {
                let ghost id = account_id.deep_view();
                let ghost addrs = poster.deep_view().send;
                let n = poster.send.len();
                let mut i: usize = 0;
                while i < n
                    invariant
                        self.wf(),
                        n == poster.send@.len(),
                        0 <= i <= n,
                        self.accounts@.contains_key(id),
                        poster.deep_view() == self.accounts@[id],
                        addrs == poster.deep_view().send,
                        out.deep_view() =~= posts_at(self.posts@, addrs.take(i as int)),
                    decreases n - i,
                {
                    proof {
                        assert(addrs[i as int] == poster.send@[i as int].deep_view());
                        assert(addrs.contains(addrs[i as int]));
                    }
                    let ghost o0 = out.deep_view();
                    match self.posts.get(&poster.send[i]) {
                        Some(post) => {
                            let copy = dup_post(post);
                            proof {
                                assert(copy.deep_view() == self.posts@[addrs[i as int]]);
                            }
                            out.push(copy);
                        },
                        None => unreached(),
                    }
                    proof {
                        assert(out.deep_view() =~= o0.push(self.posts@[addrs[i as int]]));
                        assert(posts_at(self.posts@, addrs.take(i + 1 as int)) =~= posts_at(
                            self.posts@,
                            addrs.take(i as int),
                        ).push(self.posts@[addrs[i as int]]));
                    }
                    i += 1;
                }
                proof {
                    assert(addrs.take(n as int) =~= addrs);
                    assert(out.deep_view() =~= self.sent_posts(id));
                }
                out
            },
        }
    }

    /// The whole public feed, oldest first.
    pub fn get_public_posts(&self) -> (r: Vec<PublicPost>)
        ensures
            r.deep_view() == self.public_posts.deep_view(),
    {
        let mut out: Vec<PublicPost> = Vec::new();
        let n = self.public_posts.len();
        let mut i: usize = 0;
        while i < n
            invariant
                n == self.public_posts@.len(),
                0 <= i <= n,
                out.deep_view() =~= self.public_posts.deep_view().take(i as int),
            decreases n - i,
        {
            let ghost o0 = out.deep_view();
            let copy = dup_public_post(&self.public_posts[i]);
            proof {
                assert(copy.deep_view() == self.public_posts.deep_view()[i as int]);
            }
            out.push(copy);
            proof {
                assert(out.deep_view() =~= o0.push(self.public_posts.deep_view()[i as int]));
                assert(self.public_posts.deep_view().take(i + 1 as int) =~= self.public_posts.deep_view().take(i as int).push(self.public_posts.deep_view()[i as int]));
            }
            i += 1;
        }
        proof {
            assert(self.public_posts.deep_view().take(n as int) =~= self.public_posts.deep_view());
        }
        out
    }
}

} // verus!
