//! Drivers that run each synchronization saga to completion against the
//! in-memory store models. They carry the end-to-end contracts of the
//! synchronizers: each driver's outcome and store effect equal a spec-level
//! transition function, so the cross-operation laws can be stated and proved
//! over those functions alone.
//!
//! [`perform`] is the runner for the model stores: it performs one store
//! action and returns the resulting event. An embedding program plays the
//! same role against the real stores.

use vstd::prelude::*;

use crate::aggregate::{first_index_of, AggregateItem, AggregateItemV, ListAggregate, ListAggregateV};
use crate::aggregate_store::{spec_batch_get, spec_capped, AggregateStore};
use crate::identity_store::{list_owned_by, IdentityStore, IdentityStoreV};
use crate::protocol::{
    delete_item_begin, delete_item_finish, delete_item_step, delete_list_begin, delete_list_finish,
    delete_list_step, delete_removed_view, lemma_appended_view_wf, lemma_removed_view_wf,
    lemma_updated_view_wf, owner_begin, owner_finish, owner_step, save_begin, save_finish,
    save_started, save_step, spec_lids, upsert_appended_view, upsert_begin, upsert_finish,
    upsert_step, upsert_updated_view, DeleteItemState, Fetched, OwnerLists, OwnerListsV, SaveState,
    StoreAction, StoreEvent, SyncError, UpsertState,
};
use crate::rows::{Id, ItemRow, ListRow};

verus! {

/// Perform one store action against the model stores and hand back the
/// event. The models are deterministic and their operations always succeed,
/// so no failure event ever arises here; the step functions' failure
/// transitions are exercised only by runners over real stores.
pub fn perform(ids: &mut IdentityStore, aggs: &mut AggregateStore, action: StoreAction) -> (ev:
    StoreEvent)
    requires
        old(ids)@.wf(),
        old(aggs).wf(),
        action matches StoreAction::PutListRow(row) ==> old(ids).clock < u64::MAX,
        action matches StoreAction::PutItemRow(row) ==> old(ids).clock < u64::MAX,
        action matches StoreAction::PutAggregate(agg) ==> agg.deep_view().wf(),
    ensures
        final(ids)@.wf(),
        final(aggs).wf(),
        old(ids).clock <= final(ids).clock <= old(ids).clock + 1,
        action matches StoreAction::PutListRow(row) ==> ({
            &&& final(ids)@ == old(ids)@.spec_put_list(row).0
            &&& *final(aggs) == *old(aggs)
            &&& ev == StoreEvent::ListRowPut(Some(old(ids)@.spec_put_list(row).1))
        }),
        action matches StoreAction::PutItemRow(row) ==> ({
            &&& final(ids)@ == old(ids)@.spec_put_item(row).0
            &&& *final(aggs) == *old(aggs)
            &&& ev == StoreEvent::ItemRowPut(Some(old(ids)@.spec_put_item(row).1))
        }),
        action matches StoreAction::DeleteListRow(lid) ==> ({
            &&& final(ids)@ == old(ids)@.spec_del_list(lid)
            &&& *final(aggs) == *old(aggs)
            &&& ev == StoreEvent::ListRowDeleted(true)
        }),
        action matches StoreAction::DeleteItemRow(liid) ==> ({
            &&& final(ids)@ == old(ids)@.spec_del_item(liid)
            &&& *final(aggs) == *old(aggs)
            &&& ev == StoreEvent::ItemRowDeleted(true)
        }),
        action matches StoreAction::GetOwnerListRows(uid) ==> ({
            &&& *final(ids) == *old(ids)
            &&& *final(aggs) == *old(aggs)
            &&& ({
                let f = old(ids)@.lists.filter(list_owned_by(uid));
                if f.len() == 0 {
                    ev == StoreEvent::OwnerListRows(Fetched::<Vec<ListRow>>::Absent)
                } else {
                    ev matches StoreEvent::OwnerListRows(Fetched::Present(v)) && v@ == f
                }
            })
        }),
        action matches StoreAction::PutAggregate(agg) ==> ({
            &&& *final(ids) == *old(ids)
            &&& final(aggs)@ == old(aggs)@.insert(agg.lid, agg.deep_view())
            &&& ev == StoreEvent::AggregatePut(true)
        }),
        action matches StoreAction::GetAggregate(lid) ==> ({
            &&& *final(ids) == *old(ids)
            &&& *final(aggs) == *old(aggs)
            &&& old(aggs)@.contains_key(lid) ==> ({
                &&& ev matches StoreEvent::AggregateGot(Fetched::Present(a)) && a@ == old(aggs)@[lid]
                    && a@.wf() && a.lid == lid
            })
            &&& !old(aggs)@.contains_key(lid) ==> ev == StoreEvent::AggregateGot(
                Fetched::<ListAggregate>::Absent,
            )
        }),
        action matches StoreAction::DeleteAggregate(lid) ==> ({
            &&& *final(ids) == *old(ids)
            &&& final(aggs)@ == old(aggs)@.remove(lid)
            &&& ev == StoreEvent::AggregateDeleted(true)
        }),
        action matches StoreAction::BatchGetAggregates(keys) ==> ({
            &&& *final(ids) == *old(ids)
            &&& *final(aggs) == *old(aggs)
            &&& ev matches StoreEvent::AggregatesBatchGot(Some(v)) && v.deep_view()
                == spec_batch_get(old(aggs)@, keys@)
        }),
{
    match action {
        StoreAction::PutListRow(row) => {
            let r = ids.put_list(row);
            StoreEvent::ListRowPut(Some(r))
        },
        StoreAction::PutItemRow(row) => {
            let r = ids.put_item(row);
            StoreEvent::ItemRowPut(Some(r))
        },
        StoreAction::DeleteListRow(lid) => {
            ids.del_list(lid);
            StoreEvent::ListRowDeleted(true)
        },
        StoreAction::DeleteItemRow(liid) => {
            ids.del_item(liid);
            StoreEvent::ItemRowDeleted(true)
        },
        StoreAction::GetOwnerListRows(uid) => {
            match ids.get_user_lists(uid) {
                Some(v) => StoreEvent::OwnerListRows(Fetched::Present(v)),
                None => StoreEvent::OwnerListRows(Fetched::Absent),
            }
        },
        StoreAction::PutAggregate(agg) => {
            aggs.put(agg);
            StoreEvent::AggregatePut(true)
        },
        StoreAction::GetAggregate(lid) => {
            match aggs.get(lid) {
                Some(a) => StoreEvent::AggregateGot(Fetched::Present(a)),
                None => StoreEvent::AggregateGot(Fetched::Absent),
            }
        },
        StoreAction::DeleteAggregate(lid) => {
            aggs.delete(lid);
            StoreEvent::AggregateDeleted(true)
        },
        StoreAction::BatchGetAggregates(keys) => {
            let v = aggs.batch_get(&keys);
            StoreEvent::AggregatesBatchGot(Some(v))
        },
    }
}

// --- the List Synchronizer ---

/// The identity row the merged aggregate will carry, and the identity store
/// after establishing it: a draft is persisted first (put assigns the
/// creation timestamp exactly once), a persisted row is kept as it is.
pub open spec fn spec_merged_rel(ids: IdentityStoreV, l: ListAggregateV) -> (IdentityStoreV, ListRow) {
    if l.rel.created_on_utc is None {
        ids.spec_put_list(l.rel)
    } else {
        (ids, l.rel)
    }
}

/// What create-or-update does to the two stores and returns: establish the
/// identity row, write the merged aggregate at the list's key, and return
/// the re-read aggregate — which, by the store's read-after-write guarantee,
/// is the merged aggregate itself.
pub open spec fn spec_create_or_update(
    ids: IdentityStoreV,
    aggs: Map<Id, ListAggregateV>,
    l: ListAggregateV,
) -> (IdentityStoreV, Map<Id, ListAggregateV>, ListAggregateV) {
    let (ids2, rel) = spec_merged_rel(ids, l);
    let m = ListAggregateV { rel, ..l };
    (ids2, aggs.insert(l.lid, m), m)
}

/// Create or update a list across both stores: identity store first, then
/// the aggregate store, then a readback that returns the authoritative
/// post-write state. Against the model stores every step succeeds, so the
/// result is the merged aggregate, carrying a creation timestamp.
///
/// Identity-store creation is idempotent and the aggregate write replaces
/// the whole document, so saving an aggregate again is also the
/// reconciliation hook: a caller that detects drift between the stores can
/// re-sync a list by saving it once more.
pub fn create_or_update(
    ids: &mut IdentityStore,
    aggs: &mut AggregateStore,
    list: ListAggregate,
) -> (r: Result<ListAggregate, SyncError>)
    requires
        old(ids)@.wf(),
        old(aggs).wf(),
        old(ids).clock < u64::MAX,
        list.deep_view().wf(),
    ensures
        final(ids)@.wf(),
        final(aggs).wf(),
        final(ids)@ == spec_create_or_update(old(ids)@, old(aggs)@, list@).0,
        final(aggs)@ == spec_create_or_update(old(ids)@, old(aggs)@, list@).1,
        r matches Ok(out) && out@ == spec_create_or_update(old(ids)@, old(aggs)@, list@).2,
        r matches Ok(out) && out@.wf() && out@.lid == list@.lid && out@.rel.created_on_utc is Some,
{
    let ghost l0 = list@;
    let lid = list.lid;
    let draft = list.rel.created_on_utc.is_none();
    let (st, act) = save_begin(list);
    let (st, act) = if draft {
        let ev = perform(ids, aggs, act);
        let (st2, act2) = save_step(st, ev);
        proof {
            let rel2 = old(ids)@.spec_put_list(l0.rel).1;
            assert(act2 matches Some(StoreAction::PutAggregate(m)) && m@ == (ListAggregateV {
                rel: rel2,
                ..l0
            }));
            assert((ListAggregateV { rel: rel2, ..l0 }).wf());
        }
        (st2, act2.unwrap())
    } else {
        proof {
            assert((ListAggregateV { rel: l0.rel, ..l0 }) == l0);
        }
        (st, act)
    };
    let ghost merged = spec_create_or_update(old(ids)@, old(aggs)@, l0).2;
    proof {
        assert(st matches SaveState::WritingAggregate(k) && k == l0.lid);
        assert(act matches StoreAction::PutAggregate(m) && m@ == merged);
        assert(merged.wf());
    }
    let ev = perform(ids, aggs, act);
    let (st, act2) = save_step(st, ev);
    let ev = perform(ids, aggs, act2.unwrap());
    let (st, _act3) = save_step(st, ev);
    let r = save_finish(st);
    proof {
        assert(r matches Ok(out) && out@ == merged);
    }
    r
}

/// Read a list aggregate by id: a pass-through to the aggregate store's
/// point read. Absent is a normal, non-error outcome.
pub fn read(aggs: &AggregateStore, lid: Id) -> (r: Option<ListAggregate>)
    requires
        aggs.wf(),
    ensures
        match r {
            Some(a) => aggs@.contains_key(lid) && a@ == aggs@[lid] && a@.wf(),
            None => !aggs@.contains_key(lid),
        },
{
    aggs.get(lid)
}

// --- the List Item Synchronizer ---

/// The re-scan of the persisted parent for the item that was just written:
/// found, the authoritative entry is returned; missing, the write was
/// accepted but the expected item is not visible, which is surfaced as a
/// mismatch rather than swallowed.
pub open spec fn spec_rescan(m: ListAggregateV, liid: Id) -> Result<AggregateItemV, SyncError> {
    if m.has_item(liid) {
        Ok(m.items->0[first_index_of(m.items->0, liid)])
    } else {
        Err(SyncError::ItemPersistMismatch(liid))
    }
}

/// The draft item row the identity store is asked to persist for a new item.
pub open spec fn spec_draft_item_row(liid: Id, parent_lid: Id) -> ItemRow {
    ItemRow {
        liid,
        parent_lid,
        child_lid: None,
        origin_liid: None,
        origin_lid: None,
        top_liid: None,
        top_lid: None,
        user_id: None,
        org_id: None,
        created_on_utc: None,
        validated_on_utc: None,
    }
}

/// What upsert does: load the parent aggregate by the item's owning list id;
/// overwrite the matching entry's document fields in place, or — when no
/// entry matches — persist a fresh item row and append the combined entry;
/// persist the parent through create-or-update; and re-scan the returned
/// aggregate for the item.
pub open spec fn spec_upsert_item(
    ids: IdentityStoreV,
    aggs: Map<Id, ListAggregateV>,
    it: AggregateItemV,
) -> (IdentityStoreV, Map<Id, ListAggregateV>, Result<AggregateItemV, SyncError>) {
    let plid = it.rel.parent_lid;
    let liid = it.rel.liid;
    if !aggs.contains_key(plid) {
        (ids, aggs, Err(SyncError::ParentNotFound(plid)))
    } else {
        let list = aggs[plid];
        if list.has_item(liid) {
            let v2 = upsert_updated_view(list, liid, it.title, it.description);
            let (ids2, aggs2, m) = spec_create_or_update(ids, aggs, v2);
            (ids2, aggs2, spec_rescan(m, liid))
        } else {
            let (ids2, row) = ids.spec_put_item(spec_draft_item_row(liid, plid));
            let v2 = upsert_appended_view(list, it.title, it.description, row);
            let (ids3, aggs2, m) = spec_create_or_update(ids2, aggs, v2);
            (ids3, aggs2, spec_rescan(m, liid))
        }
    }
}

/// Add a new or update an existing item inside its parent list, across both
/// stores. The merge-versus-create decision is the tagged lookup on the
/// parent's item collection; identity fields of an existing entry are never
/// touched.
pub fn upsert_item(ids: &mut IdentityStore, aggs: &mut AggregateStore, item: AggregateItem) -> (r:
    Result<AggregateItem, SyncError>)
    requires
        old(ids)@.wf(),
        old(aggs).wf(),
        old(ids).clock < u64::MAX - 1,
    ensures
        final(ids)@.wf(),
        final(aggs).wf(),
        final(ids)@ == spec_upsert_item(old(ids)@, old(aggs)@, item@).0,
        final(aggs)@ == spec_upsert_item(old(ids)@, old(aggs)@, item@).1,
        ({
            let res = spec_upsert_item(old(ids)@, old(aggs)@, item@).2;
            match r {
                Ok(out) => res matches Ok(o) && out@ == o,
                Err(e) => res == Err::<AggregateItemV, SyncError>(e),
            }
        }),
{
    let ghost i0 = old(ids)@;
    let ghost a0 = old(aggs)@;
    let ghost itv = item@;
    let ghost liid = item.rel.liid;
    let ghost plid = item.rel.parent_lid;
    let (st, act) = upsert_begin(item);
    let ev = perform(ids, aggs, act);
    let (st, act) = upsert_step(st, ev);
    if st.is_finished() {
        // the parent aggregate is absent
        return upsert_finish(st);
    }
    proof {
        if !a0[plid].has_item(liid) {
            assert(st matches UpsertState::CreatingItem(list, it2) && list@ == a0[plid] && it2 == item);
        }
    }
    let (st, act) = if st.is_creating() {
        let ev = perform(ids, aggs, act.unwrap());
        let (st2, act2) = upsert_step(st, ev);
        proof {
            let row = i0.spec_put_item(spec_draft_item_row(liid, plid)).1;
            lemma_appended_view_wf(a0[plid], itv.title, itv.description, row);
        }
        (st2, act2)
    } else {
        proof {
            lemma_updated_view_wf(a0[plid], liid, itv.title, itv.description);
        }
        (st, act)
    };
    let ghost ids1 = ids@;
    let ghost v2 = if a0[plid].has_item(liid) {
        upsert_updated_view(a0[plid], liid, itv.title, itv.description)
    } else {
        upsert_appended_view(
            a0[plid],
            itv.title,
            itv.description,
            i0.spec_put_item(spec_draft_item_row(liid, plid)).1,
        )
    };
    proof {
        assert(st matches UpsertState::Saving(x, ss) && x == liid && save_started(ss, act, v2));
        assert(v2.wf());
    }
    let (st, act) = if st.saving_needs_identity() {
        let ev = perform(ids, aggs, act.unwrap());
        let (st2, act2) = upsert_step(st, ev);
        proof {
            let rel2 = ids1.spec_put_list(v2.rel).1;
            assert(st2 matches UpsertState::Saving(x, ss) && x == liid && ss
                == SaveState::WritingAggregate(v2.lid));
            assert(act2 matches Some(StoreAction::PutAggregate(m)) && m@ == (ListAggregateV {
                rel: rel2,
                ..v2
            }));
        }
        (st2, act2)
    } else {
        proof {
            assert((ListAggregateV { rel: v2.rel, ..v2 }) == v2);
        }
        (st, act)
    };
    let ghost merged = spec_create_or_update(ids1, a0, v2).2;
    proof {
        assert(st matches UpsertState::Saving(x, ss) && x == liid && ss
            == SaveState::WritingAggregate(v2.lid));
        assert(act matches Some(StoreAction::PutAggregate(m)) && m@ == merged);
        assert(merged.wf());
    }
    let ev = perform(ids, aggs, act.unwrap());
    let (st, act) = upsert_step(st, ev);
    let ev = perform(ids, aggs, act.unwrap());
    let (st, _act) = upsert_step(st, ev);
    upsert_finish(st)
}

/// What item delete does: delete the identity row first (absent rows make
/// this a no-op in the store), then load the parent aggregate; a parent
/// without a matching entry is returned unchanged, otherwise exactly the
/// matching entry is removed and the parent persisted through
/// create-or-update.
pub open spec fn spec_delete_item(
    ids: IdentityStoreV,
    aggs: Map<Id, ListAggregateV>,
    lid: Id,
    liid: Id,
) -> (IdentityStoreV, Map<Id, ListAggregateV>, Result<ListAggregateV, SyncError>) {
    let ids2 = ids.spec_del_item(liid);
    if !aggs.contains_key(lid) {
        (ids2, aggs, Err(SyncError::ParentNotFound(lid)))
    } else {
        let list = aggs[lid];
        if !list.has_item(liid) {
            (ids2, aggs, Ok(list))
        } else {
            let v2 = delete_removed_view(list, liid);
            let (ids3, aggs2, m) = spec_create_or_update(ids2, aggs, v2);
            (ids3, aggs2, Ok(m))
        }
    }
}

/// Delete an item from its list across both stores and return the list
/// without the item. The identity row goes first — a failure there would
/// abort before the aggregate is touched — and a parent that does not carry
/// the item is returned unchanged (idempotent no-op).
pub fn delete_item(ids: &mut IdentityStore, aggs: &mut AggregateStore, lid: Id, liid: Id) -> (r:
    Result<ListAggregate, SyncError>)
    requires
        old(ids)@.wf(),
        old(aggs).wf(),
        old(ids).clock < u64::MAX,
    ensures
        final(ids)@.wf(),
        final(aggs).wf(),
        final(ids)@ == spec_delete_item(old(ids)@, old(aggs)@, lid, liid).0,
        final(aggs)@ == spec_delete_item(old(ids)@, old(aggs)@, lid, liid).1,
        ({
            let res = spec_delete_item(old(ids)@, old(aggs)@, lid, liid).2;
            match r {
                Ok(out) => res matches Ok(o) && out@ == o,
                Err(e) => res == Err::<ListAggregateV, SyncError>(e),
            }
        }),
{
    let ghost i0 = old(ids)@;
    let ghost a0 = old(aggs)@;
    let (st, act) = delete_item_begin(lid, liid);
    let ev = perform(ids, aggs, act);
    let (st, act) = delete_item_step(st, ev);
    let ghost ids1 = ids@;
    let ev = perform(ids, aggs, act.unwrap());
    let (st, act) = delete_item_step(st, ev);
    if st.is_finished() {
        // parent absent, or an idempotent no-op on a parent without the item
        return delete_item_finish(st);
    }
    let ghost v2 = delete_removed_view(a0[lid], liid);
    proof {
        lemma_removed_view_wf(a0[lid], liid);
        assert(st matches DeleteItemState::Saving(ss) && save_started(ss, act, v2));
    }
    let (st, act) = if st.saving_needs_identity() {
        let ev = perform(ids, aggs, act.unwrap());
        let (st2, act2) = delete_item_step(st, ev);
        proof {
            let rel2 = ids1.spec_put_list(v2.rel).1;
            assert(st2 == DeleteItemState::Saving(SaveState::WritingAggregate(v2.lid)));
            assert(act2 matches Some(StoreAction::PutAggregate(m)) && m@ == (ListAggregateV {
                rel: rel2,
                ..v2
            }));
        }
        (st2, act2)
    } else {
        proof {
            assert((ListAggregateV { rel: v2.rel, ..v2 }) == v2);
        }
        (st, act)
    };
    let ghost merged = spec_create_or_update(ids1, a0, v2).2;
    proof {
        assert(st == DeleteItemState::Saving(SaveState::WritingAggregate(v2.lid)));
        assert(act matches Some(StoreAction::PutAggregate(m)) && m@ == merged);
        assert(merged.wf());
    }
    let ev = perform(ids, aggs, act.unwrap());
    let (st, act) = delete_item_step(st, ev);
    let ev = perform(ids, aggs, act.unwrap());
    let (st, _act) = delete_item_step(st, ev);
    delete_item_finish(st)
}

// --- list deletion ---

/// What list delete does: remove the identity rows (the store cascades to
/// the child item rows), then remove the aggregate.
pub open spec fn spec_delete_list(
    ids: IdentityStoreV,
    aggs: Map<Id, ListAggregateV>,
    lid: Id,
) -> (IdentityStoreV, Map<Id, ListAggregateV>) {
    (ids.spec_del_list(lid), aggs.remove(lid))
}

/// Delete a list from both stores: identity rows first, with the relational
/// cascade removing the child item rows; only then the aggregate.
pub fn delete_list(ids: &mut IdentityStore, aggs: &mut AggregateStore, lid: Id) -> (r: Result<
    (),
    SyncError,
>)
    requires
        old(ids)@.wf(),
        old(aggs).wf(),
    ensures
        final(ids)@.wf(),
        final(aggs).wf(),
        final(ids)@ == spec_delete_list(old(ids)@, old(aggs)@, lid).0,
        final(aggs)@ == spec_delete_list(old(ids)@, old(aggs)@, lid).1,
        r is Ok,
{
    let (st, act) = delete_list_begin(lid);
    let ev = perform(ids, aggs, act);
    let (st, act) = delete_list_step(st, ev);
    let ev = perform(ids, aggs, act.unwrap());
    let (st, _act) = delete_list_step(st, ev);
    delete_list_finish(st)
}

// --- the Owner Index Resolver ---

/// What list-for-owner does: resolve the user's list ids in the identity
/// store (no lists is the normal absent result), cap the keys at the batch
/// limit, and fan out into one batched aggregate fetch. Fewer aggregates
/// than requested keys is store drift, reported alongside the data.
pub open spec fn spec_lists_for_owner(
    ids: IdentityStoreV,
    aggs: Map<Id, ListAggregateV>,
    user_id: Id,
) -> Option<OwnerListsV> {
    let owned = ids.lists.filter(list_owned_by(user_id));
    if owned.len() == 0 {
        None
    } else {
        let keys = spec_capped(spec_lids(owned));
        Some(OwnerListsV { lists: spec_batch_get(aggs, keys), requested: keys.len() as usize })
    }
}

/// All list aggregates owned by one user: the owner index gives the list
/// ids, one batched fetch resolves the aggregates. A user without lists gets
/// the normal absent result, not an error.
pub fn lists_for_owner(ids: &IdentityStore, aggs: &AggregateStore, user_id: Id) -> (r: Result<
    Option<OwnerLists>,
    SyncError,
>)
    requires
        ids@.wf(),
        aggs.wf(),
    ensures
        r is Ok,
        (r matches Ok(o) && o is None) <==> spec_lists_for_owner(ids@, aggs@, user_id) is None,
        r matches Ok(o) ==> o matches Some(ol) ==> spec_lists_for_owner(ids@, aggs@, user_id)
            matches Some(v) && ol@ == v,
{
    let (st, act) = owner_begin(user_id);
    let ev = perform_reads(ids, aggs, act);
    let (st, act) = owner_step(st, ev);
    if st.is_finished() {
        return owner_finish(st);
    }
    let ev = perform_reads(ids, aggs, act.unwrap());
    let (st, _act) = owner_step(st, ev);
    owner_finish(st)
}

/// Perform one read-only store action against the model stores. The owner
/// index saga only reads, so its runner borrows the stores immutably.
pub fn perform_reads(ids: &IdentityStore, aggs: &AggregateStore, action: StoreAction) -> (ev:
    StoreEvent)
    requires
        ids@.wf(),
        aggs.wf(),
        action matches StoreAction::GetOwnerListRows(_) || action
            matches StoreAction::BatchGetAggregates(_) || action matches StoreAction::GetAggregate(_),
    ensures
        action matches StoreAction::GetOwnerListRows(uid) ==> ({
            let f = ids@.lists.filter(list_owned_by(uid));
            if f.len() == 0 {
                ev == StoreEvent::OwnerListRows(Fetched::<Vec<ListRow>>::Absent)
            } else {
                ev matches StoreEvent::OwnerListRows(Fetched::Present(v)) && v@ == f
            }
        }),
        action matches StoreAction::GetAggregate(lid) ==> ({
            &&& aggs@.contains_key(lid) ==> ({
                &&& ev matches StoreEvent::AggregateGot(Fetched::Present(a)) && a@ == aggs@[lid]
                    && a@.wf() && a.lid == lid
            })
            &&& !aggs@.contains_key(lid) ==> ev == StoreEvent::AggregateGot(
                Fetched::<ListAggregate>::Absent,
            )
        }),
        action matches StoreAction::BatchGetAggregates(keys) ==> ({
            &&& ev matches StoreEvent::AggregatesBatchGot(Some(v)) && v.deep_view()
                == spec_batch_get(aggs@, keys@)
        }),
{
    match action {
        StoreAction::GetOwnerListRows(uid) => {
            match ids.get_user_lists(uid) {
                Some(v) => StoreEvent::OwnerListRows(Fetched::Present(v)),
                None => StoreEvent::OwnerListRows(Fetched::Absent),
            }
        },
        StoreAction::GetAggregate(lid) => {
            match aggs.get(lid) {
                Some(a) => StoreEvent::AggregateGot(Fetched::Present(a)),
                None => StoreEvent::AggregateGot(Fetched::Absent),
            }
        },
        StoreAction::BatchGetAggregates(keys) => {
            let v = aggs.batch_get(&keys);
            StoreEvent::AggregatesBatchGot(Some(v))
        },
        _ => unreached(),
    }
}


} // verus!
