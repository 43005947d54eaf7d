//! The synchronizers' guarantees on concrete values: creation and readback,
//! idempotent updates, in-place item upserts, exact single-entry deletion,
//! the batch cap, and the full end-to-end scenario.

use listsync::aggregate::{AggregateItem, ListAggregate};
use listsync::aggregate_store::{capped_keys, AggregateStore};
use listsync::identity_store::IdentityStore;
use listsync::rows::ItemRow;
use listsync::sync::{create_or_update, delete_item, delete_list, lists_for_owner, read, upsert_item};

#[test]
fn test_create_then_read_keeps_id_and_stamps() {
    let mut ids = IdentityStore::new();
    let mut aggs = AggregateStore::new();
    let lid: u128 = 0x91;

    let template = ListAggregate::new(lid, "fresh".to_string(), 0x1);
    assert!(template.rel.created_on_utc.is_none()); // a draft
    let out = create_or_update(&mut ids, &mut aggs, template).unwrap();

    let got = read(&aggs, lid).unwrap();
    assert_eq!(got.lid, lid);
    assert_eq!(got, out);
    assert!(got.rel.created_on_utc.is_some());
}

#[test]
fn test_create_or_update_idempotent_on_title() {
    let mut ids = IdentityStore::new();
    let mut aggs = AggregateStore::new();
    let lid: u128 = 0x92;

    let template = ListAggregate::new(lid, "first title".to_string(), 0x1);
    let out1 = create_or_update(&mut ids, &mut aggs, template).unwrap();
    let stamp1 = out1.rel.created_on_utc;

    let mut second = out1;
    second.title = "second title".to_string();
    let out2 = create_or_update(&mut ids, &mut aggs, second).unwrap();

    assert_eq!(out2.title, "second title".to_string());
    assert_eq!(out2.rel.created_on_utc, stamp1); // creation timestamp unchanged
}

#[test]
fn test_upsert_twice_updates_in_place() {
    let mut ids = IdentityStore::new();
    let mut aggs = AggregateStore::new();
    let lid: u128 = 0x93;
    let liid: u128 = 0xa1;

    let template = ListAggregate::new(lid, "parent".to_string(), 0x1);
    create_or_update(&mut ids, &mut aggs, template).unwrap();

    let first = AggregateItem {
        title: "one".to_string(),
        description: Some("first text".to_string()),
        rel: ItemRow::new(liid, lid),
    };
    let out1 = upsert_item(&mut ids, &mut aggs, first).unwrap();
    let count1 = read(&aggs, lid).unwrap().items.unwrap().len();

    let second = AggregateItem {
        title: "one updated".to_string(),
        description: Some("second text".to_string()),
        rel: ItemRow::new(liid, lid),
    };
    let out2 = upsert_item(&mut ids, &mut aggs, second).unwrap();
    let count2 = read(&aggs, lid).unwrap().items.unwrap().len();

    assert_eq!(out2.title, "one updated".to_string());
    assert_eq!(out2.description, Some("second text".to_string()));
    assert_eq!(out2.rel, out1.rel); // identity fields untouched
    assert_eq!(count1, count2); // the parent's item count is unchanged
}

#[test]
fn test_delete_item_absent_id_is_noop() {
    let mut ids = IdentityStore::new();
    let mut aggs = AggregateStore::new();
    let lid: u128 = 0x94;

    let template = ListAggregate::new(lid, "parent".to_string(), 0x1);
    create_or_update(&mut ids, &mut aggs, template).unwrap();
    let item = AggregateItem {
        title: "kept".to_string(),
        description: None,
        rel: ItemRow::new(0xb1, lid),
    };
    upsert_item(&mut ids, &mut aggs, item).unwrap();
    let before = read(&aggs, lid).unwrap();

    let out = delete_item(&mut ids, &mut aggs, lid, 0xdead).unwrap();
    let after = read(&aggs, lid).unwrap();
    assert_eq!(out, before);
    assert_eq!(after, before); // the item set is unchanged
}

#[test]
fn test_delete_item_removes_exactly_one() {
    let mut ids = IdentityStore::new();
    let mut aggs = AggregateStore::new();
    let lid: u128 = 0x95;

    let template = ListAggregate::new(lid, "parent".to_string(), 0x1);
    create_or_update(&mut ids, &mut aggs, template).unwrap();
    for (liid, title) in [(0xc1u128, "a"), (0xc2, "b"), (0xc3, "c")] {
        let item = AggregateItem {
            title: title.to_string(),
            description: None,
            rel: ItemRow::new(liid, lid),
        };
        upsert_item(&mut ids, &mut aggs, item).unwrap();
    }

    let out = delete_item(&mut ids, &mut aggs, lid, 0xc2).unwrap();
    let items = out.items.unwrap();
    assert_eq!(items.len(), 2);
    assert_eq!(items[0].title, "a".to_string()); // the others are unaffected, in order
    assert_eq!(items[0].rel.liid, 0xc1);
    assert_eq!(items[1].title, "c".to_string());
    assert_eq!(items[1].rel.liid, 0xc3);
}

#[test]
fn test_batch_get_caps_at_one_hundred() {
    let mut ids = IdentityStore::new();
    let mut aggs = AggregateStore::new();
    let user = ids.put_user("many.lists@example.com".to_string());

    // 150 distinct lists owned by one user
    for i in 0..150u128 {
        let lid: u128 = 0x10000 + i;
        let template = ListAggregate::new(lid, format!("list {}", i), user.user_id);
        create_or_update(&mut ids, &mut aggs, template).unwrap();
    }

    // one call returns at most 100 aggregates: the store's cap per request
    let ol = lists_for_owner(&ids, &aggs, user.user_id).unwrap().unwrap();
    assert_eq!(ol.requested, 100);
    assert_eq!(ol.lists.len(), 100);

    // the caller-side truncation behind it
    let keys: Vec<u128> = (0..150u128).collect();
    assert_eq!(capped_keys(&keys).len(), 100);
    let few: Vec<u128> = (0..7u128).collect();
    assert_eq!(capped_keys(&few), few);
}

#[test]
fn test_end_to_end_grocery_scenario() {
    let mut ids = IdentityStore::new();
    let mut aggs = AggregateStore::new();

    // create user u
    let u = ids.put_user("u@example.com".to_string());

    // create list L1 titled "Groceries" owned by u
    let lid: u128 = 0xd1;
    let l1 = ListAggregate::new(lid, "Groceries".to_string(), u.user_id);
    create_or_update(&mut ids, &mut aggs, l1).unwrap();

    // add items i1 "Milk" and i2 "Eggs"
    let (liid_1, liid_2): (u128, u128) = (0xe1, 0xe2);
    let i1 = AggregateItem {
        title: "Milk".to_string(),
        description: None,
        rel: ItemRow::new(liid_1, lid),
    };
    upsert_item(&mut ids, &mut aggs, i1).unwrap();
    let i2 = AggregateItem {
        title: "Eggs".to_string(),
        description: None,
        rel: ItemRow::new(liid_2, lid),
    };
    upsert_item(&mut ids, &mut aggs, i2).unwrap();

    // update i1 to "Milk 2%"
    let i1b = AggregateItem {
        title: "Milk 2%".to_string(),
        description: None,
        rel: ItemRow::new(liid_1, lid),
    };
    upsert_item(&mut ids, &mut aggs, i1b).unwrap();

    // the owner has exactly one list, containing "Milk 2%" and "Eggs"
    let ol = lists_for_owner(&ids, &aggs, u.user_id).unwrap().unwrap();
    assert_eq!(ol.lists.len(), 1);
    let titles: Vec<String> = ol.lists[0].items.as_ref().unwrap().iter().map(|it| it.title.clone()).collect();
    assert_eq!(titles, vec!["Milk 2%".to_string(), "Eggs".to_string()]);

    // delete i1; the re-fetch shows only "Eggs"
    delete_item(&mut ids, &mut aggs, lid, liid_1).unwrap();
    let after = read(&aggs, lid).unwrap();
    let titles: Vec<String> = after.items.as_ref().unwrap().iter().map(|it| it.title.clone()).collect();
    assert_eq!(titles, vec!["Eggs".to_string()]);

    // delete L1: the aggregate and both items' identity rows are gone
    delete_list(&mut ids, &mut aggs, lid).unwrap();
    assert!(read(&aggs, lid).is_none());
    assert!(ids.get_item(liid_1).is_none());
    assert!(ids.get_item(liid_2).is_none());
}
