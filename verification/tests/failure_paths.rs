//! The sagas' failure transitions, driven step by step with hand-made store
//! events. The in-memory stores never fail, so these paths are exercised
//! here exactly as a runner over real stores would reach them: one failure
//! event per typed error.

use listsync::aggregate::{AggregateItem, ListAggregate};
use listsync::protocol::{
    delete_item_begin, delete_item_finish, delete_item_step, delete_list_begin, delete_list_finish,
    delete_list_step, owner_begin, owner_finish, owner_step, save_begin, save_finish, save_step,
    upsert_begin, upsert_finish, upsert_step, Fetched, StoreEvent, SyncError,
};
use listsync::rows::{ItemRow, ListRow};

fn draft_list(lid: u128) -> ListAggregate {
    ListAggregate::new(lid, "draft".to_string(), 0x1)
}

fn persisted_list(lid: u128) -> ListAggregate {
    let mut list = ListAggregate::new(lid, "persisted".to_string(), 0x1);
    list.rel.created_on_utc = Some(7);
    list
}

#[test]
fn test_save_create_failed() {
    let (st, _act) = save_begin(draft_list(0x1a));
    let (st, act) = save_step(st, StoreEvent::ListRowPut(None));
    assert!(act.is_none());
    assert_eq!(save_finish(st).unwrap_err(), SyncError::CreateFailed(0x1a));
}

#[test]
fn test_save_aggregate_write_failed() {
    let (st, _act) = save_begin(persisted_list(0x1b));
    let (st, _act) = save_step(st, StoreEvent::AggregatePut(false));
    assert_eq!(save_finish(st).unwrap_err(), SyncError::AggregateWriteFailed(0x1b));
}

#[test]
fn test_save_readback_missing_and_read_failed() {
    let (st, _act) = save_begin(persisted_list(0x1c));
    let (st, _act) = save_step(st, StoreEvent::AggregatePut(true));
    let (st, _act) = save_step(st, StoreEvent::AggregateGot(Fetched::Absent));
    assert_eq!(save_finish(st).unwrap_err(), SyncError::ReadbackMissing(0x1c));

    let (st, _act) = save_begin(persisted_list(0x1d));
    let (st, _act) = save_step(st, StoreEvent::AggregatePut(true));
    let (st, _act) = save_step(st, StoreEvent::AggregateGot(Fetched::Failed));
    assert_eq!(save_finish(st).unwrap_err(), SyncError::ReadFailed(0x1d));
}

#[test]
fn test_save_draft_merges_identity_row() {
    let lid: u128 = 0x1e;
    let (st, _act) = save_begin(draft_list(lid));
    let mut row = ListRow::new(lid, 0x1);
    row.created_on_utc = Some(42);
    let (st, _act) = save_step(st, StoreEvent::ListRowPut(Some(row)));
    let (st, _act) = save_step(st, StoreEvent::AggregatePut(true));
    let mut stored = persisted_list(lid);
    stored.rel = row;
    let (st, _act) = save_step(st, StoreEvent::AggregateGot(Fetched::Present(stored)));
    let out = save_finish(st).unwrap();
    assert_eq!(out.rel.created_on_utc, Some(42));
}

fn item(liid: u128, lid: u128) -> AggregateItem {
    AggregateItem {
        title: "t".to_string(),
        description: None,
        rel: ItemRow::new(liid, lid),
    }
}

#[test]
fn test_upsert_parent_not_found_and_read_failed() {
    let (st, _act) = upsert_begin(item(0x2a, 0x3a));
    let (st, _act) = upsert_step(st, StoreEvent::AggregateGot(Fetched::Absent));
    assert_eq!(upsert_finish(st).unwrap_err(), SyncError::ParentNotFound(0x3a));

    let (st, _act) = upsert_begin(item(0x2a, 0x3a));
    let (st, _act) = upsert_step(st, StoreEvent::AggregateGot(Fetched::Failed));
    assert_eq!(upsert_finish(st).unwrap_err(), SyncError::ReadFailed(0x3a));
}

#[test]
fn test_upsert_item_create_failed() {
    let (st, _act) = upsert_begin(item(0x2b, 0x3b));
    let parent = persisted_list(0x3b);
    let (st, _act) = upsert_step(st, StoreEvent::AggregateGot(Fetched::Present(parent)));
    // the parent had no such item, so the saga asks for a fresh item row
    let (st, _act) = upsert_step(st, StoreEvent::ItemRowPut(None));
    assert_eq!(upsert_finish(st).unwrap_err(), SyncError::ItemCreateFailed(0x2b));
}

#[test]
fn test_upsert_item_persist_mismatch() {
    let lid: u128 = 0x3c;
    let liid: u128 = 0x2c;
    let (st, _act) = upsert_begin(item(liid, lid));
    let (st, _act) = upsert_step(st, StoreEvent::AggregateGot(Fetched::Present(persisted_list(lid))));
    let mut row = ItemRow::new(liid, lid);
    row.created_on_utc = Some(9);
    let (st, _act) = upsert_step(st, StoreEvent::ItemRowPut(Some(row)));
    let (st, _act) = upsert_step(st, StoreEvent::AggregatePut(true));
    // the readback comes back without the item that was just written
    let (st, _act) = upsert_step(st, StoreEvent::AggregateGot(Fetched::Present(persisted_list(lid))));
    assert_eq!(upsert_finish(st).unwrap_err(), SyncError::ItemPersistMismatch(liid));
}

#[test]
fn test_delete_item_identity_delete_failed() {
    let (st, _act) = delete_item_begin(0x4a, 0x5a);
    // a failed identity deletion aborts before the aggregate is touched
    let (st, _act) = delete_item_step(st, StoreEvent::ItemRowDeleted(false));
    assert_eq!(delete_item_finish(st).unwrap_err(), SyncError::IdentityDeleteFailed(0x5a));
}

#[test]
fn test_delete_item_parent_not_found() {
    let (st, _act) = delete_item_begin(0x4b, 0x5b);
    let (st, _act) = delete_item_step(st, StoreEvent::ItemRowDeleted(true));
    let (st, _act) = delete_item_step(st, StoreEvent::AggregateGot(Fetched::Absent));
    assert_eq!(delete_item_finish(st).unwrap_err(), SyncError::ParentNotFound(0x4b));
}

#[test]
fn test_delete_list_failures() {
    let (st, _act) = delete_list_begin(0x6a);
    let (st, _act) = delete_list_step(st, StoreEvent::ListRowDeleted(false));
    assert_eq!(delete_list_finish(st).unwrap_err(), SyncError::IdentityDeleteFailed(0x6a));

    let (st, _act) = delete_list_begin(0x6b);
    let (st, _act) = delete_list_step(st, StoreEvent::ListRowDeleted(true));
    let (st, _act) = delete_list_step(st, StoreEvent::AggregateDeleted(false));
    assert_eq!(delete_list_finish(st).unwrap_err(), SyncError::AggregateDeleteFailed(0x6b));
}

#[test]
fn test_owner_index_failures() {
    let (st, _act) = owner_begin(0x7a);
    let (st, _act) = owner_step(st, StoreEvent::OwnerListRows(Fetched::Failed));
    assert_eq!(owner_finish(st).unwrap_err(), SyncError::OwnerIndexFailed(0x7a));

    let (st, _act) = owner_begin(0x7b);
    let mut row = ListRow::new(0x8b, 0x7b);
    row.user_id = Some(0x7b);
    let (st, _act) = owner_step(st, StoreEvent::OwnerListRows(Fetched::Present(vec![row])));
    let (st, _act) = owner_step(st, StoreEvent::AggregatesBatchGot(None));
    assert_eq!(owner_finish(st).unwrap_err(), SyncError::BatchGetFailed(0x7b));
}

#[test]
fn test_owner_index_absent_is_not_an_error() {
    let (st, _act) = owner_begin(0x7c);
    let (st, _act) = owner_step(st, StoreEvent::OwnerListRows(Fetched::Absent));
    assert!(owner_finish(st).unwrap().is_none());

    let (st, _act) = owner_begin(0x7d);
    let (st, _act) = owner_step(st, StoreEvent::OwnerListRows(Fetched::Present(vec![])));
    assert!(owner_finish(st).unwrap().is_none());
}
