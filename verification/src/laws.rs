//! Cross-operation guarantees of the synchronizers, stated and proved over
//! the spec-level transition functions that the drivers in `sync` are
//! verified against. Each law's doc comment states it in words.

use vstd::prelude::*;

use crate::aggregate::{first_index_of, lemma_first_index_of, ListAggregateV};
use crate::aggregate_store::{lemma_batch_get_len, spec_capped, BATCH_GET_CAP};
use crate::identity_store::{item_keeps, IdentityStoreV};
use crate::protocol::{SyncError};
use crate::rows::Id;
use crate::sync::{
    spec_create_or_update, spec_delete_item, spec_lists_for_owner, spec_upsert_item,
};

verus! {

broadcast use vstd::seq_lib::group_filter_ensures;

/// Law: creating a new list and reading it back returns an aggregate with
/// the same list id, carrying a store-assigned creation timestamp; the
/// readback is exactly the aggregate the operation returned.
pub proof fn lemma_create_then_read(
    ids: IdentityStoreV,
    aggs: Map<Id, ListAggregateV>,
    l: ListAggregateV,
)
    requires
        ids.wf(),
        l.wf(),
        l.rel.created_on_utc is None,
    ensures
        ({
            let (ids2, aggs2, out) = spec_create_or_update(ids, aggs, l);
            &&& aggs2.contains_key(l.lid) && aggs2[l.lid] == out
            &&& out.lid == l.lid
            &&& out.rel.created_on_utc is Some
        }),
{
}

/// Law: create-or-update is idempotent on the document fields — saving the
/// returned aggregate again with only a changed title yields a list whose
/// title is the latest value and whose creation timestamp is unchanged, and
/// the identity store is not touched by the second call.
pub proof fn lemma_create_or_update_idempotent_on_title(
    ids: IdentityStoreV,
    aggs: Map<Id, ListAggregateV>,
    l: ListAggregateV,
    title2: Seq<char>,
)
    requires
        ids.wf(),
        l.wf(),
    ensures
        ({
            let (ids1, aggs1, out1) = spec_create_or_update(ids, aggs, l);
            let l2 = ListAggregateV { title: title2, ..out1 };
            let (ids2, aggs2, out2) = spec_create_or_update(ids1, aggs1, l2);
            &&& out2.title == title2
            &&& out2.rel.created_on_utc == out1.rel.created_on_utc
            &&& out2.rel == out1.rel
            &&& ids2 == ids1
        }),
{
}

/// Law: upserting twice with the same item id and the same parent, with
/// different document fields, updates in place — the second call's result
/// carries the second call's title and description, the identity fields of
/// the entry are untouched, and the parent's item count is unchanged between
/// the two calls.
pub proof fn lemma_upsert_twice_updates_in_place(
    ids: IdentityStoreV,
    aggs: Map<Id, ListAggregateV>,
    it: crate::aggregate::AggregateItemV,
    it2: crate::aggregate::AggregateItemV,
)
    requires
        ids.wf(),
        it2.rel.liid == it.rel.liid,
        it2.rel.parent_lid == it.rel.parent_lid,
        aggs.contains_key(it.rel.parent_lid),
        aggs[it.rel.parent_lid].wf(),
        aggs[it.rel.parent_lid].lid == it.rel.parent_lid,
    ensures
        ({
            let plid = it.rel.parent_lid;
            let liid = it.rel.liid;
            let (ids1, aggs1, r1) = spec_upsert_item(ids, aggs, it);
            let (ids2, aggs2, r2) = spec_upsert_item(ids1, aggs1, it2);
            &&& r1 matches Ok(o1) && r2 matches Ok(o2) && ({
                &&& o2.title == it2.title
                &&& o2.description == it2.description
                &&& o2.rel == o1.rel
                &&& aggs2[plid].items->0.len() == aggs1[plid].items->0.len()
            })
        }),
{
    let plid = it.rel.parent_lid;
    let liid = it.rel.liid;
    let list = aggs[plid];
    let (ids1, aggs1, r1) = spec_upsert_item(ids, aggs, it);
    let m1 = aggs1[plid];
    if list.has_item(liid) {
        lemma_first_index_of(list.items->0, liid);
    }
    assert(m1.has_item(liid)) by {
        if list.has_item(liid) {
            let s = list.items->0;
            let i = first_index_of(s, liid);
            assert(m1.items->0[i].rel.liid == liid);
        } else {
            let s = list.items_or_empty();
            assert(m1.items->0[s.len() as int].rel.liid == liid);
        }
    }
    lemma_first_index_of(m1.items->0, liid);
    let (ids2, aggs2, r2) = spec_upsert_item(ids1, aggs1, it2);
    let s1 = m1.items->0;
    let i1 = first_index_of(s1, liid);
    let m2 = aggs2[plid];
    let s2 = m2.items->0;
    assert(s2 == s1.update(first_index_of(s1, liid), crate::aggregate::AggregateItemV {
        title: it2.title,
        description: it2.description,
        rel: s1[i1].rel,
    }));
    assert(m2.has_item(liid)) by {
        assert(s2[i1].rel.liid == liid);
    }
    lemma_first_index_of(s2, liid);
    let i2 = first_index_of(s2, liid);
    assert(forall|j: int| 0 <= j < s2.len() ==> s2[j].rel.liid == s1[j].rel.liid);
    assert(i2 == i1) by {
        assert(!(i2 < i1) && !(i1 < i2));
    }
    assert(r1 == Ok::<crate::aggregate::AggregateItemV, SyncError>(s1[i1]));
}

/// Law: deleting an item id that is not in the list is a no-op on the
/// aggregate — the returned aggregate and the aggregate store are unchanged.
pub proof fn lemma_delete_item_absent_is_noop(
    ids: IdentityStoreV,
    aggs: Map<Id, ListAggregateV>,
    lid: Id,
    liid: Id,
)
    requires
        aggs.contains_key(lid),
        !aggs[lid].has_item(liid),
    ensures
        ({
            let (ids2, aggs2, r) = spec_delete_item(ids, aggs, lid, liid);
            &&& r == Ok::<ListAggregateV, SyncError>(aggs[lid])
            &&& aggs2 == aggs
        }),
{
}

/// Law: deleting an item that is in the list removes exactly one entry — the
/// one carrying the id — and every other entry is kept, in order; the item's
/// identity row is gone as well.
pub proof fn lemma_delete_item_removes_exactly_one(
    ids: IdentityStoreV,
    aggs: Map<Id, ListAggregateV>,
    lid: Id,
    liid: Id,
)
    requires
        ids.wf(),
        aggs.contains_key(lid),
        aggs[lid].wf(),
        aggs[lid].has_item(liid),
    ensures
        ({
            let s = aggs[lid].items->0;
            let i = first_index_of(s, liid);
            let (ids2, aggs2, r) = spec_delete_item(ids, aggs, lid, liid);
            &&& r matches Ok(out) && ({
                &&& out.items->0.len() == s.len() - 1
                &&& !out.has_item(liid)
                &&& forall|j: int| 0 <= j < i ==> out.items->0[j] == s[j]
                &&& forall|j: int| i <= j < s.len() - 1 ==> out.items->0[j] == s[j + 1]
            })
            &&& !ids2.has_item(liid)
        }),
{
    let list = aggs[lid];
    let s = list.items->0;
    lemma_first_index_of(s, liid);
    let i = first_index_of(s, liid);
    let (ids2, aggs2, r) = spec_delete_item(ids, aggs, lid, liid);
    let out = r->Ok_0;
    let t = out.items->0;
    assert(t == s.remove(i));
    assert(!out.has_item(liid)) by {
        assert forall|j: int| 0 <= j < t.len() implies t[j].rel.liid != liid by {
            let w: int = if j < i {
                j
            } else {
                j + 1
            };
            assert(t[j] == s[w]);
            if s[w].rel.liid == liid {
                assert(!(w < i) && !(i < w));
            }
        }
    }
    assert(!ids2.has_item(liid)) by {
        let f = ids.items.filter(item_keeps(liid));
        assert forall|j: int| 0 <= j < f.len() implies f[j].liid != liid by {
            assert(item_keeps(liid)(f[j]));
        }
    }
}

/// Law: one batched owner fetch returns at most the store's key cap of
/// aggregates, and at most one aggregate per requested key, however many
/// lists the owner index reports.
pub proof fn lemma_lists_for_owner_capped(
    ids: IdentityStoreV,
    aggs: Map<Id, ListAggregateV>,
    user_id: Id,
)
    ensures
        ({
            match spec_lists_for_owner(ids, aggs, user_id) {
                Some(ol) => ol.lists.len() <= BATCH_GET_CAP && ol.lists.len() <= ol.requested,
                None => true,
            }
        }),
{
    match spec_lists_for_owner(ids, aggs, user_id) {
        Some(ol) => {
            let owned = ids.lists.filter(crate::identity_store::list_owned_by(user_id));
            let keys = spec_capped(crate::protocol::spec_lids(owned));
            lemma_batch_get_len(aggs, keys);
        },
        None => {},
    }
}

/// Law: identity-store creation of a list is idempotent — a repeat put with
/// the same key changes nothing and returns the same row, so the write is
/// safe to retry.
pub proof fn lemma_put_list_idempotent(ids: IdentityStoreV, row: crate::rows::ListRow)
    requires
        ids.wf(),
    ensures
        ({
            let (ids1, r1) = ids.spec_put_list(row);
            let (ids2, r2) = ids1.spec_put_list(row);
            &&& ids2 == ids1
            &&& r2 == r1
        }),
{
    let (ids1, r1) = ids.spec_put_list(row);
    if !ids.has_list(row.lid) {
        let n = ids.lists.len() as int;
        assert(ids1.lists[n].lid == row.lid);
        let c = choose|c: int| 0 <= c < ids1.lists.len() && ids1.lists[c].lid == row.lid;
        assert(c == n) by {
            assert(!(c < n) && !(n < c));
        }
    } else {
        let c0 = choose|c: int| 0 <= c < ids.lists.len() && ids.lists[c].lid == row.lid;
        let c1 = choose|c: int| 0 <= c < ids1.lists.len() && ids1.lists[c].lid == row.lid;
        assert(c0 == c1) by {
            assert(!(c0 < c1) && !(c1 < c0));
        }
    }
}

/// Law: identity-store creation of an item is idempotent in the same way.
pub proof fn lemma_put_item_idempotent(ids: IdentityStoreV, row: crate::rows::ItemRow)
    requires
        ids.wf(),
    ensures
        ({
            let (ids1, r1) = ids.spec_put_item(row);
            let (ids2, r2) = ids1.spec_put_item(row);
            &&& ids2 == ids1
            &&& r2 == r1
        }),
{
    let (ids1, r1) = ids.spec_put_item(row);
    if !ids.has_item(row.liid) {
        let n = ids.items.len() as int;
        assert(ids1.items[n].liid == row.liid);
        let c = choose|c: int| 0 <= c < ids1.items.len() && ids1.items[c].liid == row.liid;
        assert(c == n) by {
            assert(!(c < n) && !(n < c));
        }
    } else {
        let c0 = choose|c: int| 0 <= c < ids.items.len() && ids.items[c].liid == row.liid;
        let c1 = choose|c: int| 0 <= c < ids1.items.len() && ids1.items[c].liid == row.liid;
        assert(c0 == c1) by {
            assert(!(c0 < c1) && !(c1 < c0));
        }
    }
}

/// Law: user creation is idempotent by email — a repeat put with a stored
/// email changes nothing and returns the stored row, with its user id and
/// creation timestamp unchanged.
pub proof fn lemma_put_user_idempotent(ids: IdentityStoreV, email: Seq<char>)
    requires
        ids.wf(),
    ensures
        ({
            let (ids1, r1) = ids.spec_put_user(email);
            let (ids2, r2) = ids1.spec_put_user(email);
            &&& ids2 == ids1
            &&& r2 == r1
        }),
{
    let (ids1, r1) = ids.spec_put_user(email);
    if !ids.has_user_email(email) {
        let n = ids.users.len() as int;
        assert(ids1.users[n].user_email == email);
        let c = choose|c: int| 0 <= c < ids1.users.len() && ids1.users[c].user_email == email;
        assert(c == n) by {
            assert(!(c < n) && !(n < c));
        }
    } else {
        let c0 = choose|c: int| 0 <= c < ids.users.len() && ids.users[c].user_email == email;
        let c1 = choose|c: int| 0 <= c < ids1.users.len() && ids1.users[c].user_email == email;
        assert(c0 == c1) by {
            assert(!(c0 < c1) && !(c1 < c0));
        }
    }
}


} // verus!
