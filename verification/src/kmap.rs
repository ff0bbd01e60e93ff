//! A small map from keys to values, backed by a vector of pairs.
//!
//! The abstract value of a `KMap` is a `Map` from the keys' abstract values
//! to the values' abstract values.  A type invariant keeps the stored keys
//! pairwise distinct, so callers never carry a well-formedness predicate.

use vstd::prelude::*;

verus! {

/// Keys that can decide equality of their abstract values.
pub trait EqKey: DeepView + Sized {
    fn eq_key(&self, other: &Self) -> (r: bool)
        ensures
            r == (self.deep_view() == other.deep_view()),
    ;
}

/// A map backed by a vector of key-value pairs with pairwise distinct keys.
pub struct KMap<K: DeepView, V> {
    entries: Vec<(K, V)>,
}

spec fn distinct_keys<K: DeepView, V>(s: Seq<(K, V)>) -> bool {
    forall|i: int, j: int|
        #![trigger s[i].0.deep_view(), s[j].0.deep_view()]
        0 <= i < j < s.len() ==> s[i].0.deep_view() != s[j].0.deep_view()
}

spec fn map_of<K: DeepView, V: DeepView>(s: Seq<(K, V)>) -> Map<K::V, V::V>
    decreases s.len(),
{
    if s.len() == 0 {
        Map::empty()
    } else {
        map_of(s.drop_last()).insert(s.last().0.deep_view(), s.last().1.deep_view())
    }
}

impl<K: DeepView, V> KMap<K, V> {
    #[verifier::type_invariant]
    spec fn inv(self) -> bool {
        distinct_keys(self.entries@)
    }
}

impl<K: DeepView, V: DeepView> View for KMap<K, V> {
    type V = Map<K::V, V::V>;

    closed spec fn view(&self) -> Map<K::V, V::V> {
        map_of(self.entries@)
    }
}

proof fn lemma_distinct_drop_last<K: DeepView, V>(s: Seq<(K, V)>)
    requires
        distinct_keys(s),
        s.len() > 0,
    ensures
        distinct_keys(s.drop_last()),
{
    assert forall|i: int, j: int|
        #![trigger s.drop_last()[i].0.deep_view(), s.drop_last()[j].0.deep_view()]
        0 <= i < j < s.drop_last().len() implies s.drop_last()[i].0.deep_view() != s.drop_last()[j].0.deep_view() by {
        assert(s[i].0.deep_view() != s[j].0.deep_view());
    }
}

proof fn lemma_distinct_remove<K: DeepView, V>(s: Seq<(K, V)>, at: int)
    requires
        distinct_keys(s),
        0 <= at < s.len(),
    ensures
        distinct_keys(s.remove(at)),
{
    assert forall|i: int, j: int|
        #![trigger s.remove(at)[i].0.deep_view(), s.remove(at)[j].0.deep_view()]
        0 <= i < j < s.remove(at).len() implies s.remove(at)[i].0.deep_view()
            != s.remove(at)[j].0.deep_view() by {
        let i0 = if i < at {
            i
        } else {
            i + 1
        };
        let j0 = if j < at {
            j
        } else {
            j + 1
        };
        assert(s[i0].0.deep_view() != s[j0].0.deep_view());
    }
}

proof fn lemma_map_of_dom<K: DeepView, V: DeepView>(s: Seq<(K, V)>)
    ensures
        forall|k: K::V|
            #![trigger map_of(s).contains_key(k)]
            map_of(s).contains_key(k) <==> (exists|i: int|
                0 <= i < s.len() && #[trigger] s[i].0.deep_view() == k),
    decreases s.len(),
{
    if s.len() > 0 {
        lemma_map_of_dom(s.drop_last());
        assert forall|k: K::V| #![trigger map_of(s).contains_key(k)]
            map_of(s).contains_key(k) implies (exists|i: int|
            0 <= i < s.len() && #[trigger] s[i].0.deep_view() == k) by {
            if s.last().0.deep_view() == k {
                assert(s[s.len() - 1].0.deep_view() == k);
            } else {
                assert(map_of(s.drop_last()).contains_key(k));
                let i = choose|i: int|
                    0 <= i < s.drop_last().len() && #[trigger] s.drop_last()[i].0.deep_view() == k;
                assert(s[i].0.deep_view() == k);
            }
        }
        assert forall|k: K::V|
            (exists|i: int| 0 <= i < s.len() && #[trigger] s[i].0.deep_view() == k) implies map_of(
            s,
        ).contains_key(k) by {
            let i = choose|i: int| 0 <= i < s.len() && #[trigger] s[i].0.deep_view() == k;
            if i < s.len() - 1 {
                assert(s.drop_last()[i].0.deep_view() == k);
                assert(map_of(s.drop_last()).contains_key(k));
            } else {
                assert(map_of(s).contains_key(s.last().0.deep_view()));
            }
        }
    }
}

proof fn lemma_map_of_at<K: DeepView, V: DeepView>(s: Seq<(K, V)>, at: int)
    requires
        distinct_keys(s),
        0 <= at < s.len(),
    ensures
        map_of(s).contains_key(s[at].0.deep_view()),
        map_of(s)[s[at].0.deep_view()] == s[at].1.deep_view(),
    decreases s.len(),
{
    if at < s.len() - 1 {
        lemma_distinct_drop_last(s);
        lemma_map_of_at(s.drop_last(), at);
        assert(s.drop_last()[at] == s[at]);
        assert(s[at].0.deep_view() != s[s.len() - 1].0.deep_view());
    }
}

proof fn lemma_map_of_remove<K: DeepView, V: DeepView>(s: Seq<(K, V)>, at: int)
    requires
        distinct_keys(s),
        0 <= at < s.len(),
    ensures
        map_of(s.remove(at)) == map_of(s).remove(s[at].0.deep_view()),
    decreases s.len(),
{
    let k = s[at].0.deep_view();
    if at == s.len() - 1 {
        lemma_map_of_dom(s.drop_last());
        assert(s.remove(at) =~= s.drop_last());
        assert(!map_of(s.drop_last()).contains_key(k)) by {
            if map_of(s.drop_last()).contains_key(k) {
                let j = choose|j: int|
                    0 <= j < s.drop_last().len() && #[trigger] s.drop_last()[j].0.deep_view() == k;
                assert(s[j].0.deep_view() == s[s.len() - 1].0.deep_view());
            }
        }
        assert(map_of(s.remove(at)) =~= map_of(s).remove(k));
    } else {
        lemma_distinct_drop_last(s);
        lemma_map_of_remove(s.drop_last(), at);
        assert(s.remove(at).drop_last() =~= s.drop_last().remove(at));
        assert(s.remove(at).last() == s.last());
        assert(s[at].0.deep_view() != s[s.len() - 1].0.deep_view());
        assert(map_of(s.remove(at)) =~= map_of(s).remove(k));
    }
}

/// The index of the entry whose key has the given abstract value, if any.
fn index_of<K: EqKey, V>(es: &Vec<(K, V)>, k: &K) -> (r: Option<usize>)
    ensures
        match r {
            Some(at) => (at as int) < es@.len() && es@[at as int].0.deep_view() == k.deep_view(),
            None => forall|j: int|
                0 <= j < es@.len() ==> #[trigger] es@[j].0.deep_view() != k.deep_view(),
        },
{
    let n = es.len();
    let mut i: usize = 0;
    while i < n
        invariant
            n == es@.len(),
            0 <= i <= n,
            forall|j: int| 0 <= j < i ==> #[trigger] es@[j].0.deep_view() != k.deep_view(),
        decreases n - i,
    {
        if es[i].0.eq_key(k) {
            return Some(i);
        }
        i += 1;
    }
    None
}

impl<K: EqKey, V: DeepView> KMap<K, V> {
    /// An empty map.
    pub fn new() -> (r: Self)
        ensures
            r@ == Map::<K::V, V::V>::empty(),
    {
        KMap { entries: Vec::new() }
    }

    /// Looks the key up; `None` exactly when the key is absent.
    pub fn get(&self, k: &K) -> (r: Option<&V>)
        ensures
            match r {
                Some(v) => self@.contains_key(k.deep_view()) && v.deep_view()
                    == self@[k.deep_view()],
                None => !self@.contains_key(k.deep_view()),
            },
    {
        proof {
            use_type_invariant(self);
            lemma_map_of_dom::<K, V>(self.entries@);
        }
        match index_of(&self.entries, k) {
            Some(at) => {
                proof {
                    lemma_map_of_at(self.entries@, at as int);
                }
                Some(&self.entries[at].1)
            },
            None => None,
        }
    }

    /// Removes and returns the value at the key, or hands `default` back
    /// when the key is absent.
    pub fn take_or(&mut self, k: &K, default: V) -> (r: V)
        ensures
            final(self)@ == old(self)@.remove(k.deep_view()),
            r.deep_view() == (if old(self)@.contains_key(k.deep_view()) {
                old(self)@[k.deep_view()]
            } else {
                default.deep_view()
            }),
    {
        proof {
            use_type_invariant(&*self);
            lemma_map_of_dom::<K, V>(self.entries@);
        }
        let mut es: Vec<(K, V)> = Vec::new();
        std::mem::swap(&mut es, &mut self.entries);
        let ghost s0 = es@;
        let r = match index_of(&es, k) {
            Some(at) => {
                proof {
                    lemma_map_of_at(s0, at as int);
                    lemma_map_of_remove::<K, V>(s0, at as int);
                    lemma_distinct_remove::<K, V>(s0, at as int);
                }
                let pair = es.remove(at);
                pair.1
            },
            None => {
                proof {
                    assert(!map_of(s0).contains_key(k.deep_view()));
                    assert(map_of(s0).remove(k.deep_view()) =~= map_of(s0));
                }
                default
            },
        };
        std::mem::swap(&mut es, &mut self.entries);
        r
    }

    /// Inserts the pair, replacing any value already stored at the key.
    pub fn insert(&mut self, k: K, v: V)
        ensures
            final(self)@ == old(self)@.insert(k.deep_view(), v.deep_view()),
    {
        proof {
            use_type_invariant(&*self);
            lemma_map_of_dom::<K, V>(self.entries@);
        }
        let ghost m0 = self@;
        let ghost kdv = k.deep_view();
        let ghost vdv = v.deep_view();
        let mut es: Vec<(K, V)> = Vec::new();
        std::mem::swap(&mut es, &mut self.entries);
        let ghost s0 = es@;
        match index_of(&es, &k) {
            Some(at) => {
                proof {
                    lemma_map_of_remove::<K, V>(s0, at as int);
                    lemma_distinct_remove::<K, V>(s0, at as int);
                }
                let _ = es.remove(at);
                proof {
                    lemma_map_of_dom::<K, V>(es@);
                    assert(!map_of(es@).contains_key(kdv));
                }
            },
            None => {
                proof {
                    assert(!map_of(s0).contains_key(kdv));
                }
            },
        }
        let ghost s1 = es@;
        proof {
            assert(forall|j: int| 0 <= j < s1.len() ==> #[trigger] s1[j].0.deep_view() != kdv) by {
                lemma_map_of_dom::<K, V>(s1);
            }
        }
        es.push((k, v));
        proof {
            assert(es@.drop_last() =~= s1);
            assert(map_of(es@) == map_of(s1).insert(kdv, vdv));
            assert(map_of(es@) =~= m0.insert(kdv, vdv));
            assert forall|i: int, j: int|
                #![trigger es@[i].0.deep_view(), es@[j].0.deep_view()]
                0 <= i < j < es@.len() implies es@[i].0.deep_view() != es@[j].0.deep_view() by {
                if j < es@.len() - 1 {
                    assert(s1[i].0.deep_view() != s1[j].0.deep_view());
                } else {
                    assert(s1[i].0.deep_view() != kdv);
                }
            }
        }
        std::mem::swap(&mut es, &mut self.entries);
    }
}

} // verus!
