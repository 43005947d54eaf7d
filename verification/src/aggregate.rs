//! The list aggregate: the denormalized document that combines a list's
//! document fields (title, description, tags) with its full ordered item
//! collection. The aggregate store holds one aggregate per list id, addressed
//! by that id as the partition key.
//!
//! The item-collection logic here is pure: finding an entry by item id,
//! overwriting its document fields in place, appending a freshly persisted
//! entry, and removing exactly one entry. The synchronizers build on these
//! operations.

use vstd::prelude::*;

use crate::rows::{Id, ItemRow, ListRow};

verus! {

/// One entry of an aggregate's item collection: the item's document fields
/// together with a mirror of its identity row.
#[derive(Debug, PartialEq, Eq)]
pub struct AggregateItem {
    pub title: String,
    pub description: Option<String>,
    pub rel: ItemRow,
}

/// Spec-level shape of an `AggregateItem`.
#[verifier::ext_equal]
pub ghost struct AggregateItemV {
    pub title: Seq<char>,
    pub description: Option<Seq<char>>,
    pub rel: ItemRow,
}

impl View for AggregateItem {
    type V = AggregateItemV;

    open spec fn view(&self) -> AggregateItemV {
        AggregateItemV {
            title: self.title@,
            description: self.description.deep_view(),
            rel: self.rel,
        }
    }
}

impl DeepView for AggregateItem {
    type V = AggregateItemV;

    open spec fn deep_view(&self) -> AggregateItemV {
        self.view()
    }
}

impl Clone for AggregateItem {
    fn clone(&self) -> (r: Self)
        ensures
            r == *self,
    {
        AggregateItem {
            title: self.title.clone(),
            description: self.description.clone(),
            rel: self.rel,
        }
    }
}

/// A complete list aggregate as exchanged with the front end.
#[derive(Debug, PartialEq, Eq)]
pub struct ListAggregate {
    pub lid: Id,
    pub title: String,
    pub description: Option<String>,
    pub tags: Option<Vec<String>>,
    pub items: Option<Vec<AggregateItem>>,
    pub rel: ListRow,
}

/// Spec-level shape of a `ListAggregate`.
#[verifier::ext_equal]
pub ghost struct ListAggregateV {
    pub lid: Id,
    pub title: Seq<char>,
    pub description: Option<Seq<char>>,
    pub tags: Option<Seq<Seq<char>>>,
    pub items: Option<Seq<AggregateItemV>>,
    pub rel: ListRow,
}

impl View for ListAggregate {
    type V = ListAggregateV;

    open spec fn view(&self) -> ListAggregateV {
        ListAggregateV {
            lid: self.lid,
            title: self.title@,
            description: self.description.deep_view(),
            tags: self.tags.deep_view(),
            items: self.items.deep_view(),
            rel: self.rel,
        }
    }
}

impl DeepView for ListAggregate {
    type V = ListAggregateV;

    open spec fn deep_view(&self) -> ListAggregateV {
        self.view()
    }
}

/// Whether some entry of `s` carries the item id `liid`.
pub open spec fn has_item_id(s: Seq<AggregateItemV>, liid: Id) -> bool {
    exists|i: int| 0 <= i < s.len() && s[i].rel.liid == liid
}

/// Item ids are unique within an aggregate's item collection.
pub open spec fn unique_item_ids(s: Seq<AggregateItemV>) -> bool {
    forall|i: int, j: int| 0 <= i < j < s.len() ==> s[i].rel.liid != s[j].rel.liid
}

/// The index of the first entry of `s` that carries `liid`. Meaningful only
/// when `has_item_id(s, liid)` holds; see `lemma_first_index_of`.
pub open spec fn first_index_of(s: Seq<AggregateItemV>, liid: Id) -> int {
    choose|i: int|
        0 <= i < s.len() && s[i].rel.liid == liid && (forall|j: int|
            0 <= j < i ==> s[j].rel.liid != liid)
}

/// When a matching entry exists, a unique first occurrence exists and
/// `first_index_of` denotes it.
pub proof fn lemma_first_index_of(s: Seq<AggregateItemV>, liid: Id)
    requires
        has_item_id(s, liid),
    ensures
        0 <= first_index_of(s, liid) < s.len(),
        s[first_index_of(s, liid)].rel.liid == liid,
        forall|j: int| 0 <= j < first_index_of(s, liid) ==> s[j].rel.liid != liid,
    decreases s.len(),
{
    let w = choose|i: int| 0 <= i < s.len() && s[i].rel.liid == liid;
    if s[0].rel.liid == liid {
        assert(0 <= 0 < s.len() && s[0].rel.liid == liid && (forall|j: int|
            0 <= j < 0 ==> s[j].rel.liid != liid));
    } else {
        let t = s.drop_first();
        assert(t[w - 1] == s[w]);
        lemma_first_index_of(t, liid);
        let f = first_index_of(t, liid);
        assert(s[f + 1] == t[f]);
        assert(forall|j: int| 0 <= j < f + 1 ==> s[j].rel.liid != liid) by {
            assert(forall|j: int| 1 <= j < f + 1 ==> s[j] == t[j - 1]);
        }
        assert(0 <= f + 1 < s.len() && s[f + 1].rel.liid == liid && (forall|j: int|
            0 <= j < f + 1 ==> s[j].rel.liid != liid));
    }
}

impl ListAggregateV {
    /// The item collection, with an absent collection read as empty.
    pub open spec fn items_or_empty(self) -> Seq<AggregateItemV> {
        match self.items {
            Some(s) => s,
            None => Seq::empty(),
        }
    }

    /// Whether the aggregate's item collection carries `liid`.
    pub open spec fn has_item(self, liid: Id) -> bool {
        has_item_id(self.items_or_empty(), liid)
    }

    /// Internal consistency: the aggregate is addressed by the same id its
    /// identity row carries, and item ids are unique within the collection.
    pub open spec fn wf(self) -> bool {
        &&& self.rel.lid == self.lid
        &&& unique_item_ids(self.items_or_empty())
    }
}

impl ListAggregate {
    /// A new aggregate with no items and only the required fields, paired
    /// with a draft identity row. Nothing is stored yet.
    pub fn new(lid: Id, title: String, user_id: Id) -> (r: ListAggregate)
        ensures
            r@ == (ListAggregateV {
                lid,
                title: title@,
                description: None,
                tags: None,
                items: None,
                rel: ListRow {
                    lid,
                    user_id: Some(user_id),
                    org_id: None,
                    created_on_utc: None,
                    validated_on_utc: None,
                },
            }),
            r@.wf(),
    {
        let rel = ListRow::new(lid, user_id);
        ListAggregate { lid, title, description: None, tags: None, items: None, rel }
    }

    /// The same aggregate under a replacement identity row (the row returned
    /// by the identity store when the draft was first persisted).
    pub fn with_rel(self, rel: ListRow) -> (r: ListAggregate)
        ensures
            r@ == (ListAggregateV { rel, ..self@ }),
    {
        ListAggregate { rel, ..self }
    }

    /// The tagged lookup at the heart of upsert: the index of the entry with
    /// the given item id, or `None` when no entry carries it (in particular
    /// when the collection is absent).
    #[verifier::loop_isolation(false)]
    pub fn find_item(&self, liid: Id) -> (r: Option<usize>)
        ensures
            match r {
                Some(i) => {
                    &&& self@.items matches Some(s)
                    &&& 0 <= i < s.len()
                    &&& s[i as int].rel.liid == liid
                    &&& forall|j: int| 0 <= j < i ==> s[j].rel.liid != liid
                },
                None => !self@.has_item(liid),
            },
    {
        let vo = self.items.as_ref();
        if vo.is_none() {
            None
        } else {
            let v = vo.unwrap();
            let mut i: usize = 0;
            while i < v.len()
                invariant
                    i <= v.len(),
                    forall|j: int| 0 <= j < i ==> v.deep_view()[j].rel.liid != liid,
                decreases v.len() - i,
            {
                if v[i].rel.liid == liid {
                    proof {
                        assert(v.deep_view()[i as int] == v@[i as int].deep_view());
                    }
                    return Some(i);
                }
                i = i + 1;
            }
            None
        }
    }

    /// A copy of the item collection entry at `i`.
    pub fn item_at(&self, i: usize) -> (r: AggregateItem)
        requires
            self.items matches Some(v) && i < v@.len(),
        ensures
            self@.items matches Some(s) && r@ == s[i as int],
    {
        match self.items.as_ref() {
            Some(v) => v[i].clone(),
            None => unreached(),
        }
    }

    /// Overwrite the document fields of the entry at `i` in place; its
    /// identity fields are untouched.
    pub fn set_item_fields(&mut self, i: usize, title: String, description: Option<String>)
        requires
            old(self).items matches Some(v) && i < v@.len(),
        ensures
            ({
                let s = old(self)@.items->0;
                final(self)@ == (ListAggregateV {
                    items: Some(
                        s.update(i as int, AggregateItemV {
                            title: title@,
                            description: description.deep_view(),
                            rel: s[i as int].rel,
                        }),
                    ),
                    ..old(self)@
                })
            }),
    {
        let v = self.items.as_mut().unwrap();
        let rel = v[i].rel;
        v[i] = AggregateItem { title, description, rel };
        proof {
            assert(final(self)@.items->0 =~= old(self)@.items->0.update(
                i as int,
                AggregateItemV {
                    title: title@,
                    description: description.deep_view(),
                    rel: old(self)@.items->0[i as int].rel,
                },
            ));
            assert(final(self)@ =~= (ListAggregateV {
                items: Some(
                    old(self)@.items->0.update(i as int, AggregateItemV {
                        title: title@,
                        description: description.deep_view(),
                        rel: old(self)@.items->0[i as int].rel,
                    }),
                ),
                ..old(self)@
            }));
        }
    }

    /// Append a new entry to the item collection, creating the collection if
    /// it was absent.
    pub fn push_item(&mut self, item: AggregateItem)
        ensures
            final(self)@ == (ListAggregateV {
                items: Some(old(self)@.items_or_empty().push(item@)),
                ..old(self)@
            }),
    {
        let v = self.items.get_or_insert(Vec::new());
        v.push(item);
        proof {
            assert(final(self)@.items->0 =~= old(self)@.items_or_empty().push(item@));
            assert(final(self)@ =~= (ListAggregateV {
                items: Some(old(self)@.items_or_empty().push(item@)),
                ..old(self)@
            }));
        }
    }

    /// Remove the entry carrying `liid`, if any. When no entry carries it —
    /// in particular when the collection is absent — the aggregate is
    /// returned unchanged, and when one does, exactly the first matching
    /// entry is removed and every other entry is kept in order.
    pub fn remove_matching_item(&mut self, liid: Id) -> (removed: bool)
        ensures
            removed == old(self)@.has_item(liid),
            !removed ==> *final(self) == *old(self),
            removed ==> ({
                let s = old(self)@.items->0;
                final(self)@ == (ListAggregateV {
                    items: Some(s.remove(first_index_of(s, liid))),
                    ..old(self)@
                })
            }),
    {
        match self.find_item(liid) {
            None => false,
            Some(i) => {
                proof {
                    lemma_first_index_of(old(self)@.items->0, liid);
                }
                let v = self.items.as_mut().unwrap();
                v.remove(i);
                proof {
                    let s = old(self)@.items->0;
                    assert(i as int == first_index_of(s, liid)) by {
                        let f = first_index_of(s, liid);
                        assert(!(f < i) && !(i < f));
                    }
                    assert(final(self)@.items->0 =~= s.remove(first_index_of(s, liid)));
                    assert(final(self)@ =~= (ListAggregateV {
                        items: Some(s.remove(first_index_of(s, liid))),
                        ..old(self)@
                    }));
                }
                true
            },
        }
    }
}

impl Clone for ListAggregate {
    fn clone(&self) -> (r: Self)
        ensures
            r@ == self@,
    {
        let r = ListAggregate {
            lid: self.lid,
            title: self.title.clone(),
            description: self.description.clone(),
            tags: self.tags.clone(),
            items: self.items.clone(),
            rel: self.rel,
        };
        proof {
            if self.tags is Some {
                let a = self.tags->0;
                let b = r.tags->0;
                assert(forall|i: int| 0 <= i < a@.len() ==> a@[i] == b@[i]);
                assert(a@ =~= b@);
                assert(a.deep_view() =~= b.deep_view());
            }
            if self.items is Some {
                let a = self.items->0;
                let b = r.items->0;
                assert(forall|i: int| 0 <= i < a@.len() ==> a@[i] == b@[i]);
                assert(a@ =~= b@);
                assert(a.deep_view() =~= b.deep_view());
            }
            assert(r@ =~= self@);
        }
        r
    }
}

} // verus!
