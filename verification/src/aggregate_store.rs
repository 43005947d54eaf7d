//! The aggregate store: the document side of the system, holding one
//! denormalized list aggregate per partition key (the list id). This module
//! models the store's documented contract: strongly consistent point reads
//! (a read immediately after a write observes that write), whole-aggregate
//! replace on `put`, and a batched point lookup in which absent keys are
//! simply missing from the result, not an error.
//!
//! The underlying store enforces a hard cap on keys per batch request;
//! [`capped_keys`] is the caller-side truncation to that cap.

use vstd::map::*;
use vstd::prelude::*;

use crate::aggregate::{ListAggregate, ListAggregateV};
use crate::rows::Id;

verus! {

/// The hard cap on keys in one batch lookup, enforced by the store.
pub const BATCH_GET_CAP: usize = 100;

/// Executable model of the aggregate store. Spec-level it is a map from
/// partition key to aggregate.
#[derive(Debug)]
pub struct AggregateStore {
    pub lists: Vec<ListAggregate>,
}

impl View for AggregateStore {
    type V = Map<Id, ListAggregateV>;

    open spec fn view(&self) -> Map<Id, ListAggregateV> {
        Map::new(
            |lid: Id| exists|i: int| 0 <= i < self.lists@.len() && self.lists@[i].lid == lid,
            |lid: Id|
                self.lists@[choose|i: int|
                    0 <= i < self.lists@.len() && self.lists@[i].lid == lid].deep_view(),
        )
    }
}

/// The result of looking a key sequence up in an aggregate map: the found
/// aggregates in key order, absent keys skipped.
pub open spec fn spec_batch_get(m: Map<Id, ListAggregateV>, keys: Seq<Id>) -> Seq<ListAggregateV>
    decreases keys.len(),
{
    if keys.len() == 0 {
        Seq::empty()
    } else {
        let rest = spec_batch_get(m, keys.drop_last());
        if m.contains_key(keys.last()) {
            rest.push(m[keys.last()])
        } else {
            rest
        }
    }
}

/// A batch lookup returns at most one aggregate per requested key.
pub proof fn lemma_batch_get_len(m: Map<Id, ListAggregateV>, keys: Seq<Id>)
    ensures
        spec_batch_get(m, keys).len() <= keys.len(),
    decreases keys.len(),
{
    if keys.len() > 0 {
        lemma_batch_get_len(m, keys.drop_last());
    }
}

/// The key sequence truncated to the store's batch cap.
pub open spec fn spec_capped(keys: Seq<Id>) -> Seq<Id> {
    if keys.len() <= BATCH_GET_CAP {
        keys
    } else {
        keys.take(BATCH_GET_CAP as int)
    }
}

/// Truncate a key list to the store's cap of keys per batch request.
#[verifier::loop_isolation(false)]
pub fn capped_keys(keys: &Vec<Id>) -> (r: Vec<Id>)
    ensures
        r@ == spec_capped(keys@),
        r@.len() <= BATCH_GET_CAP,
{
    let mut out: Vec<Id> = Vec::new();
    let mut i: usize = 0;
    while i < keys.len() && i < BATCH_GET_CAP
        invariant
            i <= keys.len(),
            i <= BATCH_GET_CAP,
            out@ == keys@.take(i as int),
        decreases keys.len() - i,
    {
        out.push(keys[i]);
        proof {
            assert(out@ =~= keys@.take(i as int + 1));
        }
        i = i + 1;
    }
    proof {
        if i == keys.len() {
            assert(keys@.take(i as int) =~= keys@);
        }
    }
    out
}

impl AggregateStore {
    /// Key uniqueness and internal consistency of every stored aggregate.
    pub open spec fn wf(self) -> bool {
        &&& forall|i: int, j: int| 0 <= i < j < self.lists@.len() ==> self.lists@[i].lid != self.lists@[j].lid
        &&& forall|i: int| 0 <= i < self.lists@.len() ==> (#[trigger] self.lists@[i]).deep_view().wf()
    }

    /// An empty store.
    pub fn new() -> (r: AggregateStore)
        ensures
            r@ == Map::<Id, ListAggregateV>::empty(),
            r.wf(),
    {
        let r = AggregateStore { lists: Vec::new() };
        proof {
            assert(r@ =~= Map::<Id, ListAggregateV>::empty());
        }
        r
    }

    /// Strongly consistent point read: the aggregate at the key, or the
    /// normal absent result.
    #[verifier::loop_isolation(false)]
    pub fn get(&self, lid: Id) -> (r: Option<ListAggregate>)
        requires
            self.wf(),
        ensures
            match r {
                Some(a) => self@.contains_key(lid) && a@ == self@[lid] && a@.wf() && a.lid == lid,
                None => !self@.contains_key(lid),
            },
    {
        let mut i: usize = 0;
        while i < self.lists.len()
            invariant
                i <= self.lists.len(),
                forall|j: int| 0 <= j < i ==> self.lists@[j].lid != lid,
            decreases self.lists.len() - i,
        {
            if self.lists[i].lid == lid {
                let a = self.lists[i].clone();
                proof {
                    let c = choose|c: int| 0 <= c < self.lists@.len() && self.lists@[c].lid == lid;
                    assert(c == i) by {
                        assert(!(c < i) && !(i < c));
                    }
                }
                return Some(a);
            }
            i = i + 1;
        }
        None
    }

    /// Replace the full aggregate at its key; there is no field-level update
    /// at this layer.
    #[verifier::loop_isolation(false)]
    pub fn put(&mut self, agg: ListAggregate)
        requires
            old(self).wf(),
            agg.deep_view().wf(),
        ensures
            final(self)@ == old(self)@.insert(agg.lid, agg.deep_view()),
            final(self).wf(),
    {
        let ghost m0 = old(self)@;
        let ghost key = agg.lid;
        let mut i: usize = 0;
        while i < self.lists.len()
            invariant
                i <= self.lists.len(),
                *self == *old(self),
                forall|j: int| 0 <= j < i ==> self.lists@[j].lid != agg.lid,
            decreases self.lists.len() - i,
        {
            if self.lists[i].lid == agg.lid {
                self.lists[i] = agg;
                proof {
                    let s0 = old(self).lists@;
                    let s1 = self.lists@;
                    assert(s1 == s0.update(i as int, agg));
                    assert_maps_equal!(self@, m0.insert(key, agg.deep_view()), k => {
                        if k == key {
                            assert(s1[i as int].lid == k);
                            let c = choose|c: int| 0 <= c < s1.len() && s1[c].lid == k;
                            assert(c == i) by {
                                assert(!(c < i) && !(i < c));
                            }
                        } else {
                            if m0.contains_key(k) {
                                let c0 = choose|c: int| 0 <= c < s0.len() && s0[c].lid == k;
                                assert(c0 != i);
                                assert(s1[c0].lid == k);
                            }
                            if self@.contains_key(k) {
                                let c1 = choose|c: int| 0 <= c < s1.len() && s1[c].lid == k;
                                assert(c1 != i);
                                assert(s0[c1].lid == k);
                                let c0 = choose|c: int| 0 <= c < s0.len() && s0[c].lid == k;
                                assert(c0 == c1) by {
                                    assert(!(c0 < c1) && !(c1 < c0));
                                }
                            }
                        }
                    });
                }
                return ;
            }
            i = i + 1;
        }
        self.lists.push(agg);
        proof {
            let s0 = old(self).lists@;
            let s1 = self.lists@;
            let n = s0.len() as int;
            assert(s1 == s0.push(agg));
            assert_maps_equal!(self@, m0.insert(key, agg.deep_view()), k => {
                if k == key {
                    assert(s1[n].lid == k);
                    let c = choose|c: int| 0 <= c < s1.len() && s1[c].lid == k;
                    assert(c == n) by {
                        assert(!(c < n) && !(n < c));
                    }
                } else {
                    if m0.contains_key(k) {
                        let c0 = choose|c: int| 0 <= c < s0.len() && s0[c].lid == k;
                        assert(s1[c0].lid == k);
                    }
                    if self@.contains_key(k) {
                        let c1 = choose|c: int| 0 <= c < s1.len() && s1[c].lid == k;
                        assert(c1 != n);
                        assert(s0[c1].lid == k);
                        let c0 = choose|c: int| 0 <= c < s0.len() && s0[c].lid == k;
                        assert(c0 == c1) by {
                            assert(!(c0 < c1) && !(c1 < c0));
                        }
                    }
                }
            });
        }
    }

    /// Remove the aggregate at the key; removing an absent key is a no-op.
    #[verifier::loop_isolation(false)]
    pub fn delete(&mut self, lid: Id)
        requires
            old(self).wf(),
        ensures
            final(self)@ == old(self)@.remove(lid),
            final(self).wf(),
    {
        let mut i: usize = 0;
        while i < self.lists.len()
            invariant
                i <= self.lists.len(),
                *self == *old(self),
                forall|j: int| 0 <= j < i ==> self.lists@[j].lid != lid,
            decreases self.lists.len() - i,
        {
            if self.lists[i].lid == lid {
                self.lists.remove(i);
                proof {
                    let s0 = old(self).lists@;
                    let s1 = self.lists@;
                    assert(s1 == s0.remove(i as int));
                    assert(forall|j: int| 0 <= j < i ==> s1[j] == s0[j]);
                    assert(forall|j: int| i <= j < s1.len() ==> s1[j] == s0[j + 1]);
                    assert_maps_equal!(self@, old(self)@.remove(lid), k => {
                        if k == lid {
                            if self@.contains_key(k) {
                                let c = choose|c: int| 0 <= c < s1.len() && s1[c].lid == k;
                                if c >= i {
                                    assert(s0[c + 1].lid == k);
                                }
                            }
                        } else {
                            if old(self)@.contains_key(k) {
                                let c0 = choose|c: int| 0 <= c < s0.len() && s0[c].lid == k;
                                assert(c0 != i);
                                if c0 < i {
                                    assert(s1[c0].lid == k);
                                } else {
                                    assert(s1[c0 - 1].lid == k);
                                }
                            }
                            if self@.contains_key(k) {
                                let c1 = choose|c: int| 0 <= c < s1.len() && s1[c].lid == k;
                                let w: int = if c1 < i { c1 } else { c1 + 1 };
                                assert(s0[w].lid == k);
                                let c0 = choose|c: int| 0 <= c < s0.len() && s0[c].lid == k;
                                assert(c0 == w) by {
                                    assert(!(c0 < w) && !(w < c0));
                                }
                                assert(self@[k] == s1[c1].deep_view());
                                assert(old(self)@[k] == s0[w].deep_view());
                            }
                        }
                    });
                    assert forall|j: int, k2: int|
                        0 <= j < k2 < s1.len() implies s1[j].lid != s1[k2].lid by {
                        let wj: int = if j < i { j } else { j + 1 };
                        let wk: int = if k2 < i { k2 } else { k2 + 1 };
                        assert(s1[j] == s0[wj] && s1[k2] == s0[wk]);
                    }
                }
                return ;
            }
            i = i + 1;
        }
        proof {
            assert(!old(self)@.contains_key(lid));
            assert(final(self)@ =~= old(self)@.remove(lid));
        }
    }

    /// Batched point lookup: the found aggregates for the given keys, in key
    /// order; keys with no aggregate are simply absent from the result.
    /// Callers must respect the store's key cap per request.
    #[verifier::loop_isolation(false)]
    pub fn batch_get(&self, keys: &Vec<Id>) -> (r: Vec<ListAggregate>)
        requires
            self.wf(),
        ensures
            r.deep_view() == spec_batch_get(self@, keys@),
            forall|i: int| 0 <= i < r@.len() ==> (#[trigger] r@[i]).deep_view().wf(),
    {
        let mut out: Vec<ListAggregate> = Vec::new();
        let mut i: usize = 0;
        while i < keys.len()
            invariant
                i <= keys.len(),
                out.deep_view() == spec_batch_get(self@, keys@.take(i as int)),
                forall|j: int| 0 <= j < out@.len() ==> (#[trigger] out@[j]).deep_view().wf(),
            decreases keys.len() - i,
        {
            proof {
                assert(keys@.take(i as int + 1).drop_last() =~= keys@.take(i as int));
                assert(keys@.take(i as int + 1).last() == keys@[i as int]);
            }
            match self.get(keys[i]) {
                Some(a) => {
                    out.push(a);
                    proof {
                        assert(out.deep_view() =~= spec_batch_get(self@, keys@.take(i as int + 1)));
                    }
                },
                None => {},
            }
            i = i + 1;
        }
        proof {
            assert(keys@.take(keys@.len() as int) =~= keys@);
        }
        out
    }
}

} // verus!
