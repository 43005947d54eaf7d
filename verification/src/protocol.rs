//! The synchronization protocols, as explicit state machines. Every public
//! operation of the synchronizers is a short sequence of store actions with a
//! decision between each two; here each operation is a saga of named steps —
//! a begin function that issues the first action, and a step function from
//! state and event to next state and action. A runner performs each action
//! against the two stores (the in-memory models in this crate's drivers, the
//! real stores in an embedding program) and feeds the resulting event back.
//!
//! The two-write sequence has no distributed transaction and no rollback:
//! when the aggregate write fails after the identity write succeeded, the
//! saga surfaces a typed failure and leaves retry or reconciliation to the
//! caller, never retrying internally.

use vstd::prelude::*;

use crate::aggregate::{
    first_index_of, lemma_first_index_of, AggregateItem, AggregateItemV, ListAggregate,
    ListAggregateV,
};
use crate::aggregate_store::{capped_keys, spec_capped};
use crate::rows::{Id, ItemRow, ListRow};

verus! {

/// The outcome of a point fetch: a transport failure, a normal absent
/// result, or the value.
#[derive(Debug)]
pub enum Fetched<T> {
    Failed,
    Absent,
    Present(T),
}

/// One request to one of the two stores.
#[derive(Debug)]
pub enum StoreAction {
    PutListRow(ListRow),
    PutItemRow(ItemRow),
    DeleteListRow(Id),
    DeleteItemRow(Id),
    GetOwnerListRows(Id),
    PutAggregate(ListAggregate),
    GetAggregate(Id),
    DeleteAggregate(Id),
    BatchGetAggregates(Vec<Id>),
}

/// The store's reply to one action. A `None` inside a put reply means the
/// store failed to create or return the row; a `false` inside a delete or
/// write reply means the operation failed in transport.
#[derive(Debug)]
pub enum StoreEvent {
    ListRowPut(Option<ListRow>),
    ItemRowPut(Option<ItemRow>),
    ListRowDeleted(bool),
    ItemRowDeleted(bool),
    OwnerListRows(Fetched<Vec<ListRow>>),
    AggregatePut(bool),
    AggregateGot(Fetched<ListAggregate>),
    AggregateDeleted(bool),
    AggregatesBatchGot(Option<Vec<ListAggregate>>),
}

/// The typed failures of the synchronizers, each carrying the key of the
/// entity it concerns. Absent entities are never reported through these —
/// not-found is a normal outcome — except where an operation requires its
/// parent to exist. The core never retries: every failure aborts the
/// in-flight operation and is surfaced to the caller.
#[derive(Clone, Copy, Debug, PartialEq, Eq, Structural)]
pub enum SyncError {
    /// The identity store failed to create the list row.
    CreateFailed(Id),
    /// The aggregate store rejected the aggregate write. When the identity
    /// write had already succeeded the two stores are now inconsistent; the
    /// caller must reconcile or retry.
    AggregateWriteFailed(Id),
    /// The re-read after a confirmed aggregate write came back absent: the
    /// store accepted the write but cannot yet serve it. Surfaced, never
    /// silently swallowed.
    ReadbackMissing(Id),
    /// A point read of the aggregate failed in transport.
    ReadFailed(Id),
    /// The parent list aggregate of an item does not exist.
    ParentNotFound(Id),
    /// The identity store failed to create the item row.
    ItemCreateFailed(Id),
    /// The persisted aggregate came back without the item that was just
    /// written into it.
    ItemPersistMismatch(Id),
    /// Deleting the identity row failed; the operation aborts before
    /// touching the aggregate, since the relational store gates existence.
    IdentityDeleteFailed(Id),
    /// Deleting the aggregate failed after the identity row was already
    /// removed: the stores are left inconsistent and the caller must close
    /// the gap.
    AggregateDeleteFailed(Id),
    /// The owner index lookup failed in transport.
    OwnerIndexFailed(Id),
    /// The batched aggregate fetch failed in transport.
    BatchGetFailed(Id),
}

// --- the create-or-update (save) saga ---

/// States of the save saga: persist the identity row first when the list is
/// a draft, then write the merged aggregate, then re-read it to return the
/// authoritative post-write state.
#[derive(Debug)]
pub enum SaveState {
    /// Waiting for the identity store to persist the draft's row; holds the
    /// full draft aggregate for the merge.
    PuttingIdentity(ListAggregate),
    /// Waiting for the aggregate store to confirm the write of the merged
    /// aggregate at this key.
    WritingAggregate(Id),
    /// Waiting for the readback at this key.
    ReadingBack(Id),
    Finished(Result<ListAggregate, SyncError>),
}

impl SaveState {
    /// Which event the saga is waiting for.
    pub open spec fn expects(self, ev: StoreEvent) -> bool {
        match self {
            SaveState::PuttingIdentity(_) => ev matches StoreEvent::ListRowPut(_),
            SaveState::WritingAggregate(_) => ev matches StoreEvent::AggregatePut(_),
            SaveState::ReadingBack(_) => ev matches StoreEvent::AggregateGot(_),
            SaveState::Finished(_) => false,
        }
    }

}

/// Whether `(ss, act)` is a freshly begun save of an aggregate whose view is
/// `v`: a draft waits on the identity write, anything else goes straight to
/// the aggregate write.
pub open spec fn save_started(ss: SaveState, act: Option<StoreAction>, v: ListAggregateV) -> bool {
    if v.rel.created_on_utc is None {
        &&& ss matches SaveState::PuttingIdentity(l) && l@ == v
        &&& act matches Some(StoreAction::PutListRow(row)) && row == v.rel
    } else {
        &&& ss matches SaveState::WritingAggregate(lid) && lid == v.lid
        &&& act matches Some(StoreAction::PutAggregate(m)) && m@ == v
    }
}

/// Begin saving a list: a draft needs its identity row persisted first, a
/// persisted list goes straight to the aggregate write.
pub fn save_begin(list: ListAggregate) -> (r: (SaveState, StoreAction))
    ensures
        save_started(r.0, Some(r.1), list@),
        list.rel.created_on_utc is None ==> r.0 == SaveState::PuttingIdentity(list),
        list.rel.created_on_utc is Some ==> r.1 == StoreAction::PutAggregate(list),
{
    if list.rel.created_on_utc.is_none() {
        let rel = list.rel;
        (SaveState::PuttingIdentity(list), StoreAction::PutListRow(rel))
    } else {
        let lid = list.lid;
        (SaveState::WritingAggregate(lid), StoreAction::PutAggregate(list))
    }
}

/// One step of the save saga.
pub fn save_step(st: SaveState, ev: StoreEvent) -> (r: (SaveState, Option<StoreAction>))
    requires
        st.expects(ev),
    ensures
        st matches SaveState::PuttingIdentity(l) ==> ev matches StoreEvent::ListRowPut(None)
            ==> r == (SaveState::Finished(Err::<ListAggregate, SyncError>(SyncError::CreateFailed(l.lid))), None::<StoreAction>),
        st matches SaveState::PuttingIdentity(l) ==> ev matches StoreEvent::ListRowPut(Some(row))
            ==> ({
            &&& r.0 == SaveState::WritingAggregate(l.lid)
            &&& r.1 matches Some(StoreAction::PutAggregate(m)) && m@ == (ListAggregateV { rel: row, ..l@ })
        }),
        st matches SaveState::WritingAggregate(lid) ==> ev matches StoreEvent::AggregatePut(false)
            ==> r == (SaveState::Finished(Err::<ListAggregate, SyncError>(SyncError::AggregateWriteFailed(lid))), None::<StoreAction>),
        st matches SaveState::WritingAggregate(lid) ==> ev matches StoreEvent::AggregatePut(true)
            ==> r == (SaveState::ReadingBack(lid), Some(StoreAction::GetAggregate(lid))),
        st matches SaveState::ReadingBack(lid) ==> ev matches StoreEvent::AggregateGot(Fetched::Failed)
            ==> r == (SaveState::Finished(Err::<ListAggregate, SyncError>(SyncError::ReadFailed(lid))), None::<StoreAction>),
        st matches SaveState::ReadingBack(lid) ==> ev matches StoreEvent::AggregateGot(Fetched::Absent)
            ==> r == (SaveState::Finished(Err::<ListAggregate, SyncError>(SyncError::ReadbackMissing(lid))), None::<StoreAction>),
        st matches SaveState::ReadingBack(lid) ==> ev matches StoreEvent::AggregateGot(Fetched::Present(a))
            ==> r == (SaveState::Finished(Ok::<ListAggregate, SyncError>(a)), None::<StoreAction>),
{
    match (st, ev) {
        (SaveState::PuttingIdentity(l), StoreEvent::ListRowPut(None)) => {
            let lid = l.lid;
            (SaveState::Finished(Err(SyncError::CreateFailed(lid))), None)
        },
        (SaveState::PuttingIdentity(l), StoreEvent::ListRowPut(Some(row))) => {
            let lid = l.lid;
            let merged = l.with_rel(row);
            (SaveState::WritingAggregate(lid), Some(StoreAction::PutAggregate(merged)))
        },
        (SaveState::WritingAggregate(lid), StoreEvent::AggregatePut(false)) => {
            (SaveState::Finished(Err(SyncError::AggregateWriteFailed(lid))), None)
        },
        (SaveState::WritingAggregate(lid), StoreEvent::AggregatePut(true)) => {
            (SaveState::ReadingBack(lid), Some(StoreAction::GetAggregate(lid)))
        },
        (SaveState::ReadingBack(lid), StoreEvent::AggregateGot(Fetched::Failed)) => {
            (SaveState::Finished(Err(SyncError::ReadFailed(lid))), None)
        },
        (SaveState::ReadingBack(lid), StoreEvent::AggregateGot(Fetched::Absent)) => {
            (SaveState::Finished(Err(SyncError::ReadbackMissing(lid))), None)
        },
        (SaveState::ReadingBack(_lid), StoreEvent::AggregateGot(Fetched::Present(a))) => {
            (SaveState::Finished(Ok(a)), None)
        },
        _ => unreached(),
    }
}

/// Take the result out of a finished save saga.
pub fn save_finish(st: SaveState) -> (r: Result<ListAggregate, SyncError>)
    requires
        st matches SaveState::Finished(_),
    ensures
        st matches SaveState::Finished(res) && r == res,
{
    match st {
        SaveState::Finished(res) => res,
        _ => unreached(),
    }
}

// --- the item upsert saga ---

/// The aggregate view after an in-place overwrite of the document fields of
/// the (unique) entry carrying `liid`. Meaningful when the entry exists.
pub open spec fn upsert_updated_view(
    list: ListAggregateV,
    liid: Id,
    title: Seq<char>,
    description: Option<Seq<char>>,
) -> ListAggregateV {
    let s = list.items->0;
    let i = first_index_of(s, liid);
    ListAggregateV {
        items: Some(s.update(i, AggregateItemV { title, description, rel: s[i].rel })),
        ..list
    }
}

/// The aggregate view after appending a freshly persisted entry, creating
/// the item collection if it was absent.
pub open spec fn upsert_appended_view(
    list: ListAggregateV,
    title: Seq<char>,
    description: Option<Seq<char>>,
    rel: ItemRow,
) -> ListAggregateV {
    ListAggregateV {
        items: Some(list.items_or_empty().push(AggregateItemV { title, description, rel })),
        ..list
    }
}

/// States of the item upsert saga: load the parent aggregate, decide between
/// merge-in-place and create-then-append, persist the parent through the
/// save saga, and re-scan the returned aggregate for the item.
#[derive(Debug)]
pub enum UpsertState {
    /// Waiting for the parent aggregate of this item.
    FetchingParent(AggregateItem),
    /// The item was not in the parent (held here); waiting for the identity
    /// store to persist the new item row.
    CreatingItem(ListAggregate, AggregateItem),
    /// The mutated parent is being saved; holds the item id to re-scan for.
    Saving(Id, SaveState),
    Finished(Result<AggregateItem, SyncError>),
}

impl UpsertState {
    /// Which event the saga is waiting for.
    pub open spec fn expects(self, ev: StoreEvent) -> bool {
        match self {
            UpsertState::FetchingParent(_) => ev matches StoreEvent::AggregateGot(_),
            UpsertState::CreatingItem(_, _) => ev matches StoreEvent::ItemRowPut(_),
            UpsertState::Saving(_, ss) => ss.expects(ev),
            UpsertState::Finished(_) => false,
        }
    }

    pub fn is_finished(&self) -> (b: bool)
        ensures
            b == (self matches UpsertState::Finished(_)),
    {
        match self {
            UpsertState::Finished(_) => true,
            _ => false,
        }
    }

    pub fn is_creating(&self) -> (b: bool)
        ensures
            b == (self matches UpsertState::CreatingItem(_, _)),
    {
        match self {
            UpsertState::CreatingItem(_, _) => true,
            _ => false,
        }
    }

    /// Whether the inner save still waits on the identity write.
    pub fn saving_needs_identity(&self) -> (b: bool)
        ensures
            b == (self matches UpsertState::Saving(_, ss) && ss matches SaveState::PuttingIdentity(_)),
    {
        match self {
            UpsertState::Saving(_, SaveState::PuttingIdentity(_)) => true,
            _ => false,
        }
    }
}

/// Begin upserting an item into its parent list: the parent aggregate is
/// loaded first.
pub fn upsert_begin(item: AggregateItem) -> (r: (UpsertState, StoreAction))
    ensures
        r.0 == UpsertState::FetchingParent(item),
        r.1 == StoreAction::GetAggregate(item.rel.parent_lid),
{
    let plid = item.rel.parent_lid;
    (UpsertState::FetchingParent(item), StoreAction::GetAggregate(plid))
}

/// One step of the item upsert saga.
pub fn upsert_step(st: UpsertState, ev: StoreEvent) -> (r: (UpsertState, Option<StoreAction>))
    requires
        st.expects(ev),
    ensures
        st matches UpsertState::FetchingParent(it) ==> ev matches StoreEvent::AggregateGot(
            Fetched::Failed,
        ) ==> r == (
            UpsertState::Finished(Err::<AggregateItem, SyncError>(SyncError::ReadFailed(it.rel.parent_lid))),
            None::<StoreAction>,
        ),
        st matches UpsertState::FetchingParent(it) ==> ev matches StoreEvent::AggregateGot(
            Fetched::Absent,
        ) ==> r == (
            UpsertState::Finished(Err::<AggregateItem, SyncError>(SyncError::ParentNotFound(it.rel.parent_lid))),
            None::<StoreAction>,
        ),
        st matches UpsertState::FetchingParent(it) ==> ev matches StoreEvent::AggregateGot(
            Fetched::Present(list),
        ) ==> ({
            &&& list@.has_item(it.rel.liid) ==> ({
                &&& r.0 matches UpsertState::Saving(liid, ss) && liid == it.rel.liid
                    && save_started(
                    ss,
                    r.1,
                    upsert_updated_view(list@, it.rel.liid, it.title@, it.description.deep_view()),
                )
            })
            &&& !list@.has_item(it.rel.liid) ==> ({
                &&& r.0 == UpsertState::CreatingItem(list, it)
                &&& r.1 == Some(StoreAction::PutItemRow(ItemRow {
                    liid: it.rel.liid,
                    parent_lid: it.rel.parent_lid,
                    child_lid: None,
                    origin_liid: None,
                    origin_lid: None,
                    top_liid: None,
                    top_lid: None,
                    user_id: None,
                    org_id: None,
                    created_on_utc: None,
                    validated_on_utc: None,
                }))
            })
        }),
        st matches UpsertState::CreatingItem(list, it) ==> ev matches StoreEvent::ItemRowPut(None)
            ==> r == (
            UpsertState::Finished(Err::<AggregateItem, SyncError>(SyncError::ItemCreateFailed(it.rel.liid))),
            None::<StoreAction>,
        ),
        st matches UpsertState::CreatingItem(list, it) ==> ev matches StoreEvent::ItemRowPut(
            Some(row),
        ) ==> ({
            &&& r.0 matches UpsertState::Saving(liid, ss) && liid == it.rel.liid && save_started(
                ss,
                r.1,
                upsert_appended_view(list@, it.title@, it.description.deep_view(), row),
            )
        }),
        st matches UpsertState::Saving(liid, ss0) ==> ({
            &&& ss0 matches SaveState::PuttingIdentity(l) ==> ev matches StoreEvent::ListRowPut(None)
                ==> r == (
                UpsertState::Finished(Err::<AggregateItem, SyncError>(SyncError::CreateFailed(l.lid))),
                None::<StoreAction>,
            )
            &&& ss0 matches SaveState::PuttingIdentity(l) ==> ev matches StoreEvent::ListRowPut(
                Some(row),
            ) ==> ({
                &&& r.0 == UpsertState::Saving(liid, SaveState::WritingAggregate(l.lid))
                &&& r.1 matches Some(StoreAction::PutAggregate(m)) && m@ == (ListAggregateV {
                    rel: row,
                    ..l@
                })
            })
            &&& ss0 matches SaveState::WritingAggregate(lid) ==> ev matches StoreEvent::AggregatePut(
                false,
            ) ==> r == (
                UpsertState::Finished(Err::<AggregateItem, SyncError>(SyncError::AggregateWriteFailed(lid))),
                None::<StoreAction>,
            )
            &&& ss0 matches SaveState::WritingAggregate(lid) ==> ev matches StoreEvent::AggregatePut(
                true,
            ) ==> r == (
                UpsertState::Saving(liid, SaveState::ReadingBack(lid)),
                Some(StoreAction::GetAggregate(lid)),
            )
            &&& ss0 matches SaveState::ReadingBack(lid) ==> ev matches StoreEvent::AggregateGot(
                Fetched::Failed,
            ) ==> r == (
                UpsertState::Finished(Err::<AggregateItem, SyncError>(SyncError::ReadFailed(lid))),
                None::<StoreAction>,
            )
            &&& ss0 matches SaveState::ReadingBack(lid) ==> ev matches StoreEvent::AggregateGot(
                Fetched::Absent,
            ) ==> r == (
                UpsertState::Finished(Err::<AggregateItem, SyncError>(SyncError::ReadbackMissing(lid))),
                None::<StoreAction>,
            )
            &&& ss0 matches SaveState::ReadingBack(lid) ==> ev matches StoreEvent::AggregateGot(
                Fetched::Present(agg),
            ) ==> ({
                &&& agg@.has_item(liid) ==> ({
                    &&& r.0 matches UpsertState::Finished(res) && res matches Ok(out) && out@
                        == agg@.items->0[first_index_of(agg@.items->0, liid)]
                    &&& r.1 is None
                })
                &&& !agg@.has_item(liid) ==> r == (
                    UpsertState::Finished(Err::<AggregateItem, SyncError>(SyncError::ItemPersistMismatch(liid))),
                    None::<StoreAction>,
                )
            })
        }),
{
    match (st, ev) {
        (UpsertState::FetchingParent(it), StoreEvent::AggregateGot(Fetched::Failed)) => {
            let plid = it.rel.parent_lid;
            (UpsertState::Finished(Err(SyncError::ReadFailed(plid))), None)
        },
        (UpsertState::FetchingParent(it), StoreEvent::AggregateGot(Fetched::Absent)) => {
            let plid = it.rel.parent_lid;
            (UpsertState::Finished(Err(SyncError::ParentNotFound(plid))), None)
        },
        (UpsertState::FetchingParent(it), StoreEvent::AggregateGot(Fetched::Present(list))) => {
            let mut list = list;
            let liid = it.rel.liid;
            let plid = it.rel.parent_lid;
            match list.find_item(liid) {
                Some(i) => {
                    proof {
                        lemma_first_index_of(list@.items->0, liid);
                        let f = first_index_of(list@.items->0, liid);
                        assert(i as int == f) by {
                            assert(!(f < i) && !(i < f));
                        }
                    }
                    let AggregateItem { title, description, rel: _ } = it;
                    let ghost l0 = list@;
                    list.set_item_fields(i, title, description);
                    proof {
                        assert(list@ =~= upsert_updated_view(l0, liid, title@, description.deep_view()));
                    }
                    let (ss, act) = save_begin(list);
                    (UpsertState::Saving(liid, ss), Some(act))
                },
                None => {
                    let row = ItemRow::new(liid, plid);
                    (UpsertState::CreatingItem(list, it), Some(StoreAction::PutItemRow(row)))
                },
            }
        },
        (UpsertState::CreatingItem(_list, it), StoreEvent::ItemRowPut(None)) => {
            let liid = it.rel.liid;
            (UpsertState::Finished(Err(SyncError::ItemCreateFailed(liid))), None)
        },
        (UpsertState::CreatingItem(list, it), StoreEvent::ItemRowPut(Some(row))) => {
            let mut list = list;
            let liid = it.rel.liid;
            let AggregateItem { title, description, rel: _ } = it;
            let ghost l0 = list@;
            list.push_item(AggregateItem { title, description, rel: row });
            proof {
                assert(list@ =~= upsert_appended_view(l0, title@, description.deep_view(), row));
            }
            let (ss, act) = save_begin(list);
            (UpsertState::Saving(liid, ss), Some(act))
        },
        (UpsertState::Saving(liid, ss), ev2) => {
            let (ss2, act) = save_step(ss, ev2);
            match ss2 {
                SaveState::Finished(res) => match res {
                    Err(e) => (UpsertState::Finished(Err(e)), None),
                    Ok(agg) => match agg.find_item(liid) {
                        Some(i) => {
                            proof {
                                lemma_first_index_of(agg@.items->0, liid);
                                let f = first_index_of(agg@.items->0, liid);
                                assert(i as int == f) by {
                                    assert(!(f < i) && !(i < f));
                                }
                            }
                            let out = agg.item_at(i);
                            (UpsertState::Finished(Ok(out)), None)
                        },
                        None => (
                            UpsertState::Finished(Err(SyncError::ItemPersistMismatch(liid))),
                            None,
                        ),
                    },
                },
                ss2 => (UpsertState::Saving(liid, ss2), act),
            }
        },
        _ => unreached(),
    }
}

/// Take the result out of a finished upsert saga.
pub fn upsert_finish(st: UpsertState) -> (r: Result<AggregateItem, SyncError>)
    requires
        st matches UpsertState::Finished(_),
    ensures
        st matches UpsertState::Finished(res) && r == res,
{
    match st {
        UpsertState::Finished(res) => res,
        _ => unreached(),
    }
}


/// An in-place overwrite of an entry's document fields keeps the aggregate
/// internally consistent.
pub proof fn lemma_updated_view_wf(list: ListAggregateV, liid: Id, title: Seq<char>, description: Option<Seq<char>>)
    requires
        list.wf(),
        list.has_item(liid),
    ensures
        upsert_updated_view(list, liid, title, description).wf(),
{
    lemma_first_index_of(list.items->0, liid);
    let s = list.items->0;
    let i = first_index_of(s, liid);
    let v2 = upsert_updated_view(list, liid, title, description);
    assert(forall|j: int| 0 <= j < s.len() ==> v2.items->0[j].rel.liid == s[j].rel.liid);
}

/// Appending an entry whose item id is not yet in the collection keeps the
/// aggregate internally consistent.
pub proof fn lemma_appended_view_wf(list: ListAggregateV, title: Seq<char>, description: Option<Seq<char>>, rel: ItemRow)
    requires
        list.wf(),
        !list.has_item(rel.liid),
    ensures
        upsert_appended_view(list, title, description, rel).wf(),
{
    let s = list.items_or_empty();
    let v2 = upsert_appended_view(list, title, description, rel);
    assert(forall|j: int| 0 <= j < s.len() ==> v2.items->0[j].rel.liid == s[j].rel.liid);
    assert(v2.items->0[s.len() as int].rel.liid == rel.liid);
}

/// Removing an entry keeps the aggregate internally consistent.
pub proof fn lemma_removed_view_wf(list: ListAggregateV, liid: Id)
    requires
        list.wf(),
        list.has_item(liid),
    ensures
        delete_removed_view(list, liid).wf(),
{
    lemma_first_index_of(list.items->0, liid);
    let s = list.items->0;
    let i = first_index_of(s, liid);
    let t = delete_removed_view(list, liid).items->0;
    assert(t == s.remove(i));
    assert forall|j: int, k: int| 0 <= j < k < t.len() implies t[j].rel.liid != t[k].rel.liid by {
        let wj: int = if j < i { j } else { j + 1 };
        let wk: int = if k < i { k } else { k + 1 };
        assert(t[j] == s[wj] && t[k] == s[wk]);
    }
}

// --- the item delete saga ---

/// The aggregate view after removing the (unique) entry carrying `liid`.
/// Meaningful when the entry exists.
pub open spec fn delete_removed_view(list: ListAggregateV, liid: Id) -> ListAggregateV {
    let s = list.items->0;
    ListAggregateV { items: Some(s.remove(first_index_of(s, liid))), ..list }
}

/// States of the item delete saga: the identity row goes first — a failure
/// there aborts the operation before the aggregate is touched — then the
/// parent aggregate is loaded, the entry removed, and the parent persisted
/// through the save saga. A parent without the entry is returned unchanged
/// (idempotent no-op).
#[derive(Debug)]
pub enum DeleteItemState {
    /// Waiting for the identity store to delete the item row; holds
    /// `(list id, item id)`.
    DeletingItemRow(Id, Id),
    /// Waiting for the parent aggregate; holds `(list id, item id)`.
    FetchingParent(Id, Id),
    /// The mutated parent is being saved.
    Saving(SaveState),
    Finished(Result<ListAggregate, SyncError>),
}

impl DeleteItemState {
    /// Which event the saga is waiting for.
    pub open spec fn expects(self, ev: StoreEvent) -> bool {
        match self {
            DeleteItemState::DeletingItemRow(_, _) => ev matches StoreEvent::ItemRowDeleted(_),
            DeleteItemState::FetchingParent(_, _) => ev matches StoreEvent::AggregateGot(_),
            DeleteItemState::Saving(ss) => ss.expects(ev),
            DeleteItemState::Finished(_) => false,
        }
    }

    pub fn is_finished(&self) -> (b: bool)
        ensures
            b == (self matches DeleteItemState::Finished(_)),
    {
        match self {
            DeleteItemState::Finished(_) => true,
            _ => false,
        }
    }

    /// Whether the inner save still waits on the identity write.
    pub fn saving_needs_identity(&self) -> (b: bool)
        ensures
            b == (self matches DeleteItemState::Saving(ss) && ss matches SaveState::PuttingIdentity(_)),
    {
        match self {
            DeleteItemState::Saving(SaveState::PuttingIdentity(_)) => true,
            _ => false,
        }
    }
}

/// Begin deleting an item from its list: the identity row is deleted first,
/// and a failure there is fatal for the operation.
pub fn delete_item_begin(lid: Id, liid: Id) -> (r: (DeleteItemState, StoreAction))
    ensures
        r == (DeleteItemState::DeletingItemRow(lid, liid), StoreAction::DeleteItemRow(liid)),
{
    (DeleteItemState::DeletingItemRow(lid, liid), StoreAction::DeleteItemRow(liid))
}

/// One step of the item delete saga.
pub fn delete_item_step(st: DeleteItemState, ev: StoreEvent) -> (r: (DeleteItemState, Option<StoreAction>))
    requires
        st.expects(ev),
    ensures
        st matches DeleteItemState::DeletingItemRow(lid, liid) ==> ev matches StoreEvent::ItemRowDeleted(false)
            ==> r == (
            DeleteItemState::Finished(Err::<ListAggregate, SyncError>(SyncError::IdentityDeleteFailed(liid))),
            None::<StoreAction>,
        ),
        st matches DeleteItemState::DeletingItemRow(lid, liid) ==> ev matches StoreEvent::ItemRowDeleted(true)
            ==> r == (
            DeleteItemState::FetchingParent(lid, liid),
            Some(StoreAction::GetAggregate(lid)),
        ),
        st matches DeleteItemState::FetchingParent(lid, liid) ==> ev matches StoreEvent::AggregateGot(
            Fetched::Failed,
        ) ==> r == (
            DeleteItemState::Finished(Err::<ListAggregate, SyncError>(SyncError::ReadFailed(lid))),
            None::<StoreAction>,
        ),
        st matches DeleteItemState::FetchingParent(lid, liid) ==> ev matches StoreEvent::AggregateGot(
            Fetched::Absent,
        ) ==> r == (
            DeleteItemState::Finished(Err::<ListAggregate, SyncError>(SyncError::ParentNotFound(lid))),
            None::<StoreAction>,
        ),
        st matches DeleteItemState::FetchingParent(lid, liid) ==> ev matches StoreEvent::AggregateGot(
            Fetched::Present(list),
        ) ==> ({
            &&& !list@.has_item(liid) ==> r == (
                DeleteItemState::Finished(Ok::<ListAggregate, SyncError>(list)),
                None::<StoreAction>,
            )
            &&& list@.has_item(liid) ==> ({
                &&& r.0 matches DeleteItemState::Saving(ss) && save_started(
                    ss,
                    r.1,
                    delete_removed_view(list@, liid),
                )
            })
        }),
        st matches DeleteItemState::Saving(ss0) ==> ({
            &&& ss0 matches SaveState::PuttingIdentity(l) ==> ev matches StoreEvent::ListRowPut(None)
                ==> r == (
                DeleteItemState::Finished(Err::<ListAggregate, SyncError>(SyncError::CreateFailed(l.lid))),
                None::<StoreAction>,
            )
            &&& ss0 matches SaveState::PuttingIdentity(l) ==> ev matches StoreEvent::ListRowPut(
                Some(row),
            ) ==> ({
                &&& r.0 == DeleteItemState::Saving(SaveState::WritingAggregate(l.lid))
                &&& r.1 matches Some(StoreAction::PutAggregate(m)) && m@ == (ListAggregateV {
                    rel: row,
                    ..l@
                })
            })
            &&& ss0 matches SaveState::WritingAggregate(lid) ==> ev matches StoreEvent::AggregatePut(
                false,
            ) ==> r == (
                DeleteItemState::Finished(Err::<ListAggregate, SyncError>(SyncError::AggregateWriteFailed(lid))),
                None::<StoreAction>,
            )
            &&& ss0 matches SaveState::WritingAggregate(lid) ==> ev matches StoreEvent::AggregatePut(
                true,
            ) ==> r == (
                DeleteItemState::Saving(SaveState::ReadingBack(lid)),
                Some(StoreAction::GetAggregate(lid)),
            )
            &&& ss0 matches SaveState::ReadingBack(lid) ==> ev matches StoreEvent::AggregateGot(
                Fetched::Failed,
            ) ==> r == (
                DeleteItemState::Finished(Err::<ListAggregate, SyncError>(SyncError::ReadFailed(lid))),
                None::<StoreAction>,
            )
            &&& ss0 matches SaveState::ReadingBack(lid) ==> ev matches StoreEvent::AggregateGot(
                Fetched::Absent,
            ) ==> r == (
                DeleteItemState::Finished(Err::<ListAggregate, SyncError>(SyncError::ReadbackMissing(lid))),
                None::<StoreAction>,
            )
            &&& ss0 matches SaveState::ReadingBack(lid) ==> ev matches StoreEvent::AggregateGot(
                Fetched::Present(agg),
            ) ==> r == (
                DeleteItemState::Finished(Ok::<ListAggregate, SyncError>(agg)),
                None::<StoreAction>,
            )
        }),
{
    match (st, ev) {
        (DeleteItemState::DeletingItemRow(_lid, liid), StoreEvent::ItemRowDeleted(false)) => {
            (DeleteItemState::Finished(Err(SyncError::IdentityDeleteFailed(liid))), None)
        },
        (DeleteItemState::DeletingItemRow(lid, liid), StoreEvent::ItemRowDeleted(true)) => {
            (DeleteItemState::FetchingParent(lid, liid), Some(StoreAction::GetAggregate(lid)))
        },
        (DeleteItemState::FetchingParent(lid, _liid), StoreEvent::AggregateGot(Fetched::Failed)) => {
            (DeleteItemState::Finished(Err(SyncError::ReadFailed(lid))), None)
        },
        (DeleteItemState::FetchingParent(lid, _liid), StoreEvent::AggregateGot(Fetched::Absent)) => {
            (DeleteItemState::Finished(Err(SyncError::ParentNotFound(lid))), None)
        },
        (DeleteItemState::FetchingParent(_lid, liid), StoreEvent::AggregateGot(Fetched::Present(list))) => {
            let mut list = list;
            let ghost l0 = list@;
            let removed = list.remove_matching_item(liid);
            if !removed {
                (DeleteItemState::Finished(Ok(list)), None)
            } else {
                proof {
                    assert(list@ =~= delete_removed_view(l0, liid));
                }
                let (ss, act) = save_begin(list);
                (DeleteItemState::Saving(ss), Some(act))
            }
        },
        (DeleteItemState::Saving(ss), ev2) => {
            let (ss2, act) = save_step(ss, ev2);
            match ss2 {
                SaveState::Finished(res) => (DeleteItemState::Finished(res), None),
                ss2 => (DeleteItemState::Saving(ss2), act),
            }
        },
        _ => unreached(),
    }
}

/// Take the result out of a finished item delete saga.
pub fn delete_item_finish(st: DeleteItemState) -> (r: Result<ListAggregate, SyncError>)
    requires
        st matches DeleteItemState::Finished(_),
    ensures
        st matches DeleteItemState::Finished(res) && r == res,
{
    match st {
        DeleteItemState::Finished(res) => res,
        _ => unreached(),
    }
}

// --- the list delete saga ---

/// States of the list delete saga: the identity rows go first (the store's
/// schema cascades to the child item rows); only when that succeeded is the
/// aggregate deleted, since the relational store gates existence. A failure
/// after the identity deletion leaves the stores inconsistent and is
/// surfaced as such.
#[derive(Debug)]
pub enum DeleteListState {
    DeletingIdentity(Id),
    DeletingAggregate(Id),
    Finished(Result<(), SyncError>),
}

impl DeleteListState {
    /// Which event the saga is waiting for.
    pub open spec fn expects(self, ev: StoreEvent) -> bool {
        match self {
            DeleteListState::DeletingIdentity(_) => ev matches StoreEvent::ListRowDeleted(_),
            DeleteListState::DeletingAggregate(_) => ev matches StoreEvent::AggregateDeleted(_),
            DeleteListState::Finished(_) => false,
        }
    }
}

/// Begin deleting a list from both stores, identity rows first.
pub fn delete_list_begin(lid: Id) -> (r: (DeleteListState, StoreAction))
    ensures
        r == (DeleteListState::DeletingIdentity(lid), StoreAction::DeleteListRow(lid)),
{
    (DeleteListState::DeletingIdentity(lid), StoreAction::DeleteListRow(lid))
}

/// One step of the list delete saga.
pub fn delete_list_step(st: DeleteListState, ev: StoreEvent) -> (r: (DeleteListState, Option<StoreAction>))
    requires
        st.expects(ev),
    ensures
        st matches DeleteListState::DeletingIdentity(lid) ==> ev matches StoreEvent::ListRowDeleted(false)
            ==> r == (
            DeleteListState::Finished(Err::<(), SyncError>(SyncError::IdentityDeleteFailed(lid))),
            None::<StoreAction>,
        ),
        st matches DeleteListState::DeletingIdentity(lid) ==> ev matches StoreEvent::ListRowDeleted(true)
            ==> r == (
            DeleteListState::DeletingAggregate(lid),
            Some(StoreAction::DeleteAggregate(lid)),
        ),
        st matches DeleteListState::DeletingAggregate(lid) ==> ev matches StoreEvent::AggregateDeleted(false)
            ==> r == (
            DeleteListState::Finished(Err::<(), SyncError>(SyncError::AggregateDeleteFailed(lid))),
            None::<StoreAction>,
        ),
        st matches DeleteListState::DeletingAggregate(lid) ==> ev matches StoreEvent::AggregateDeleted(true)
            ==> r == (DeleteListState::Finished(Ok::<(), SyncError>(())), None::<StoreAction>),
{
    match (st, ev) {
        (DeleteListState::DeletingIdentity(lid), StoreEvent::ListRowDeleted(false)) => {
            (DeleteListState::Finished(Err(SyncError::IdentityDeleteFailed(lid))), None)
        },
        (DeleteListState::DeletingIdentity(lid), StoreEvent::ListRowDeleted(true)) => {
            (DeleteListState::DeletingAggregate(lid), Some(StoreAction::DeleteAggregate(lid)))
        },
        (DeleteListState::DeletingAggregate(lid), StoreEvent::AggregateDeleted(false)) => {
            (DeleteListState::Finished(Err(SyncError::AggregateDeleteFailed(lid))), None)
        },
        (DeleteListState::DeletingAggregate(_lid), StoreEvent::AggregateDeleted(true)) => {
            (DeleteListState::Finished(Ok(())), None)
        },
        _ => unreached(),
    }
}

/// Take the result out of a finished list delete saga.
pub fn delete_list_finish(st: DeleteListState) -> (r: Result<(), SyncError>)
    requires
        st matches DeleteListState::Finished(_),
    ensures
        st matches DeleteListState::Finished(res) && r == res,
{
    match st {
        DeleteListState::Finished(res) => res,
        _ => unreached(),
    }
}

// --- the owner index saga ---

/// The aggregates owned by one user, as returned by the batched fetch,
/// together with how many were requested from the aggregate store. Fewer
/// found than requested means the two stores have diverged for at least one
/// list; the caller must log that as a consistency warning while still using
/// the best-effort data.
#[derive(Debug)]
pub struct OwnerLists {
    pub lists: Vec<ListAggregate>,
    pub requested: usize,
}

/// Spec-level shape of an `OwnerLists`.
#[verifier::ext_equal]
pub ghost struct OwnerListsV {
    pub lists: Seq<ListAggregateV>,
    pub requested: usize,
}

impl View for OwnerLists {
    type V = OwnerListsV;

    open spec fn view(&self) -> OwnerListsV {
        OwnerListsV { lists: self.lists.deep_view(), requested: self.requested }
    }
}

impl OwnerLists {
    /// Store drift: the owner index promised more lists than the aggregate
    /// store could serve.
    pub open spec fn spec_drift(self) -> bool {
        self@.lists.len() < self.requested
    }

    /// Whether the two stores disagreed; to be logged as a consistency
    /// warning by the caller.
    pub fn drift(&self) -> (b: bool)
        ensures
            b == self.spec_drift(),
    {
        self.lists.len() < self.requested
    }
}

/// The list ids of a row sequence, in order.
pub open spec fn spec_lids(rows: Seq<ListRow>) -> Seq<Id> {
    rows.map_values(|l: ListRow| l.lid)
}

/// States of the owner index saga: resolve the user's list ids in the
/// identity store, then fan out into one batched aggregate fetch, capped at
/// the store's limit on keys per request.
#[derive(Debug)]
pub enum OwnerState {
    FetchingIndex(Id),
    /// Waiting for the batched fetch; holds the user id and how many keys
    /// were requested.
    FetchingAggregates(Id, usize),
    Finished(Result<Option<OwnerLists>, SyncError>),
}

impl OwnerState {
    /// Which event the saga is waiting for.
    pub open spec fn expects(self, ev: StoreEvent) -> bool {
        match self {
            OwnerState::FetchingIndex(_) => ev matches StoreEvent::OwnerListRows(_),
            OwnerState::FetchingAggregates(_, _) => ev matches StoreEvent::AggregatesBatchGot(_),
            OwnerState::Finished(_) => false,
        }
    }

    pub fn is_finished(&self) -> (b: bool)
        ensures
            b == (self matches OwnerState::Finished(_)),
    {
        match self {
            OwnerState::Finished(_) => true,
            _ => false,
        }
    }
}

/// Begin resolving all lists of one owner.
pub fn owner_begin(user_id: Id) -> (r: (OwnerState, StoreAction))
    ensures
        r == (OwnerState::FetchingIndex(user_id), StoreAction::GetOwnerListRows(user_id)),
{
    (OwnerState::FetchingIndex(user_id), StoreAction::GetOwnerListRows(user_id))
}

/// One step of the owner index saga.
#[verifier::loop_isolation(false)]
pub fn owner_step(st: OwnerState, ev: StoreEvent) -> (r: (OwnerState, Option<StoreAction>))
    requires
        st.expects(ev),
    ensures
        st matches OwnerState::FetchingIndex(uid) ==> ev matches StoreEvent::OwnerListRows(Fetched::Failed)
            ==> r == (
            OwnerState::Finished(Err::<Option<OwnerLists>, SyncError>(SyncError::OwnerIndexFailed(uid))),
            None::<StoreAction>,
        ),
        st matches OwnerState::FetchingIndex(uid) ==> ev matches StoreEvent::OwnerListRows(Fetched::Absent)
            ==> r == (
            OwnerState::Finished(Ok::<Option<OwnerLists>, SyncError>(None)),
            None::<StoreAction>,
        ),
        st matches OwnerState::FetchingIndex(uid) ==> ev matches StoreEvent::OwnerListRows(
            Fetched::Present(rows),
        ) ==> ({
            &&& rows@.len() == 0 ==> r == (
                OwnerState::Finished(Ok::<Option<OwnerLists>, SyncError>(None)),
                None::<StoreAction>,
            )
            &&& rows@.len() > 0 ==> ({
                &&& r.1 matches Some(StoreAction::BatchGetAggregates(ks)) && ks@ == spec_capped(
                    spec_lids(rows@),
                )
                &&& r.0 == OwnerState::FetchingAggregates(uid, spec_capped(spec_lids(rows@)).len() as usize)
            })
        }),
        st matches OwnerState::FetchingAggregates(uid, n) ==> ev matches StoreEvent::AggregatesBatchGot(None)
            ==> r == (
            OwnerState::Finished(Err::<Option<OwnerLists>, SyncError>(SyncError::BatchGetFailed(uid))),
            None::<StoreAction>,
        ),
        st matches OwnerState::FetchingAggregates(uid, n) ==> ev matches StoreEvent::AggregatesBatchGot(
            Some(aggs),
        ) ==> ({
            &&& r.0 matches OwnerState::Finished(res) && res matches Ok(ol) && ol matches Some(ol)
                && ol@ == (OwnerListsV { lists: aggs.deep_view(), requested: n })
            &&& r.1 is None
        }),
{
    match (st, ev) {
        (OwnerState::FetchingIndex(uid), StoreEvent::OwnerListRows(Fetched::Failed)) => {
            (OwnerState::Finished(Err(SyncError::OwnerIndexFailed(uid))), None)
        },
        (OwnerState::FetchingIndex(_uid), StoreEvent::OwnerListRows(Fetched::Absent)) => {
            (OwnerState::Finished(Ok(None)), None)
        },
        (OwnerState::FetchingIndex(uid), StoreEvent::OwnerListRows(Fetched::Present(rows))) => {
            if rows.len() == 0 {
                (OwnerState::Finished(Ok(None)), None)
            } else {
                let mut lids: Vec<Id> = Vec::new();
                let mut i: usize = 0;
                while i < rows.len()
                    invariant
                        i <= rows.len(),
                        lids@ == spec_lids(rows@.take(i as int)),
                    decreases rows.len() - i,
                {
                    lids.push(rows[i].lid);
                    proof {
                        assert(lids@ =~= spec_lids(rows@.take(i as int + 1)));
                    }
                    i = i + 1;
                }
                proof {
                    assert(rows@.take(rows@.len() as int) =~= rows@);
                }
                let keys = capped_keys(&lids);
                let n = keys.len();
                (OwnerState::FetchingAggregates(uid, n), Some(StoreAction::BatchGetAggregates(keys)))
            }
        },
        (OwnerState::FetchingAggregates(uid, _n), StoreEvent::AggregatesBatchGot(None)) => {
            (OwnerState::Finished(Err(SyncError::BatchGetFailed(uid))), None)
        },
        (OwnerState::FetchingAggregates(_uid, n), StoreEvent::AggregatesBatchGot(Some(aggs))) => {
            (OwnerState::Finished(Ok(Some(OwnerLists { lists: aggs, requested: n }))), None)
        },
        _ => unreached(),
    }
}

/// Take the result out of a finished owner index saga.
pub fn owner_finish(st: OwnerState) -> (r: Result<Option<OwnerLists>, SyncError>)
    requires
        st matches OwnerState::Finished(_),
    ensures
        st matches OwnerState::Finished(res) && r == res,
{
    match st {
        OwnerState::Finished(res) => res,
        _ => unreached(),
    }
}


} // verus!
