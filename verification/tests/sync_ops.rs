//! The synchronizers end to end against the in-memory stores: list creation
//! and update, item add/update/delete, the owner index fan-out, and user
//! deletion.

use listsync::aggregate::{AggregateItem, ListAggregate};
use listsync::aggregate_store::AggregateStore;
use listsync::identity_store::IdentityStore;
use listsync::rows::ItemRow;
use listsync::sync::{create_or_update, delete_item, delete_list, lists_for_owner, read, upsert_item};

/// Create a list with a few items, mirroring what a front end would send.
fn create_list_with_items(
    ids: &mut IdentityStore,
    aggs: &mut AggregateStore,
    lid: u128,
    user_id: u128,
    title: &str,
    item_count: usize,
) -> ListAggregate {
    let template = ListAggregate::new(lid, title.to_string(), user_id);
    create_or_update(ids, aggs, template).expect("cannot save the new list");

    for i in 0..item_count {
        let item = AggregateItem {
            title: format!("{}: item", i),
            description: Some(format!("{}: description", i)),
            rel: ItemRow::new(0x1000 + (lid * 0x10) + i as u128, lid),
        };
        upsert_item(ids, aggs, item).expect("cannot save the new item");
    }

    read(aggs, lid).unwrap()
}

#[test]
fn test_list_listitems_new_update_delete() {
    let user_id: u128 = 0xdbc44eaa_364f_4a4f_b25e_15218c7928a7;
    let lid: u128 = 0x51;
    let list_title = "My test list X".to_string();

    let mut ids = IdentityStore::new();
    let mut aggs = AggregateStore::new();

    // create a brand new list template and save it in both stores
    let template = ListAggregate::new(lid, list_title, user_id);
    let saved = create_or_update(&mut ids, &mut aggs, template);
    assert!(saved.is_ok());
    let saved = saved.unwrap();
    assert!(saved.rel.created_on_utc.is_some());

    // update the list - add a description
    let mut to_update = saved;
    let new_descr = "Updated description".to_string();
    to_update.description = Some(new_descr.clone());
    let updated = create_or_update(&mut ids, &mut aggs, to_update);
    assert!(updated.is_ok());
    let updated = updated.unwrap();
    assert!(updated.description.is_some());
    assert_eq!(updated.description.unwrap(), new_descr);

    // add the 1st item to the list
    let liid_1: u128 = 0x61;
    let item_from_ui = AggregateItem {
        title: "New item 1".to_string(),
        description: Some("Some long description 1".to_string()),
        rel: ItemRow::new(liid_1, lid),
    };
    let item_1 = upsert_item(&mut ids, &mut aggs, item_from_ui);
    assert!(item_1.is_ok());
    let item_1 = item_1.unwrap();
    assert!(item_1.rel.created_on_utc.is_some()); // the item row was created
    assert_eq!(item_1.rel.liid, liid_1); // it is the right item

    // add a 2nd item to the list
    let liid_2: u128 = 0x62;
    let item_from_ui = AggregateItem {
        title: "New item 2".to_string(),
        description: Some("Some long description 2".to_string()),
        rel: ItemRow::new(liid_2, lid),
    };
    let item_2 = upsert_item(&mut ids, &mut aggs, item_from_ui);
    assert!(item_2.is_ok());
    let item_2 = item_2.unwrap();
    assert!(item_2.rel.created_on_utc.is_some());
    assert_eq!(item_2.rel.liid, liid_2);

    // modify the 1st item
    let item_from_ui = AggregateItem {
        title: "New item 1 - still".to_string(),
        description: Some("Some long description - modified".to_string()),
        rel: ItemRow::new(liid_1, lid),
    };
    let item_1a = upsert_item(&mut ids, &mut aggs, item_from_ui);
    assert!(item_1a.is_ok());
    let item_1a = item_1a.unwrap();
    assert!(item_1a.rel.created_on_utc.is_some());
    assert_eq!(item_1a.rel.liid, liid_1);
    assert_ne!(item_1a.title, item_1.title); // the title changed
    assert_ne!(item_1a.description, item_1.description); // the description changed
    assert_eq!(item_1a.rel, item_1.rel); // the identity fields did not

    // delete the 1st item
    let list_del = delete_item(&mut ids, &mut aggs, lid, liid_1);
    for remaining in list_del.unwrap().items.unwrap() {
        assert_ne!(remaining.rel.liid, liid_1);
    }
}

#[test]
fn test_get_user_lists() {
    let mut ids = IdentityStore::new();
    let mut aggs = AggregateStore::new();

    // create a new user
    let user_email = "test_get_user_lists@example.com".to_string();
    let user = ids.put_user(user_email);

    // create user lists
    let lids: [u128; 3] = [0x71, 0x72, 0x73];
    for (i, lid) in lids.iter().enumerate() {
        create_list_with_items(&mut ids, &mut aggs, *lid, user.user_id, &format!("TEST {}", i), 5);
    }

    // get all user lists, twice
    let all_lists = lists_for_owner(&ids, &aggs, user.user_id).expect("lists_for_owner failed");
    assert_eq!(all_lists.unwrap().lists.len(), 3);
    let all_lists_again = lists_for_owner(&ids, &aggs, user.user_id).expect("lists_for_owner failed");
    let all_lists_again = all_lists_again.unwrap();
    assert_eq!(all_lists_again.lists.len(), 3);
    assert!(!all_lists_again.drift()); // the two stores agree

    // a user id that owns nothing gets the normal absent result
    let wrong = lists_for_owner(&ids, &aggs, 0x424242).expect("lists_for_owner failed");
    assert!(wrong.is_none());

    // clean up
    ids.del_user(user.user_id);
    for lid in lids.iter() {
        assert!(delete_list(&mut ids, &mut aggs, *lid).is_ok());
        assert!(read(&aggs, *lid).is_none());
    }
}

#[test]
fn test_del_user() {
    let mut ids = IdentityStore::new();

    // create a new user
    let user_email = "test_del_user@example.com".to_string();
    let user = ids.put_user(user_email.clone());

    // check the user was created
    let user_read = ids.get_user(None, Some(user_email.clone()));
    assert!(user_read.is_some());

    // delete the user
    ids.del_user(user.user_id);

    // check the user was deleted
    let user_read = ids.get_user(None, Some(user_email));
    assert!(user_read.is_none());
}

#[test]
fn test_owner_index_reports_drift() {
    let mut ids = IdentityStore::new();
    let mut aggs = AggregateStore::new();

    let user = ids.put_user("drift@example.com".to_string());
    let lid: u128 = 0x81;
    let template = ListAggregate::new(lid, "kept in sync".to_string(), user.user_id);
    create_or_update(&mut ids, &mut aggs, template).unwrap();

    // force drift: the aggregate disappears while the identity row stays
    aggs.delete(lid);

    let ol = lists_for_owner(&ids, &aggs, user.user_id).unwrap().unwrap();
    assert_eq!(ol.requested, 1);
    assert_eq!(ol.lists.len(), 0);
    assert!(ol.drift()); // to be logged as a consistency warning
}
