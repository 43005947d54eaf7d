//! The identity store model: user, list and item rows through their full
//! get/put/delete lifecycle, including the cascade from a list to its items
//! and the AND-semantics of the user lookup.

use listsync::identity_store::{pick_unique, IdentityStore};
use listsync::rows::{ItemRow, ListRow};

#[test]
fn test_identity_store_functions() {
    let mut ids = IdentityStore::new();

    // create a new user
    let user_email = "test_identity_store_functions@example.com".to_string();
    let pg_user = ids.put_user(user_email.clone());
    assert!(pg_user.created_on_utc > 0);

    // get the user with different input combinations
    let g1 = ids.get_user(None, Some(pg_user.user_email.clone()));
    let g2 = ids.get_user(Some(pg_user.user_id), None);
    let g3 = ids.get_user(Some(pg_user.user_id), Some(pg_user.user_email.clone()));
    let g4 = ids.get_user(None, None);
    let g5 = ids.get_user(Some(0xffff_ffff_ffff_ffff_ffff_ffff_ffff_ffffu128), Some(pg_user.user_email.clone()));
    assert!(g1.is_some());
    assert!(g2.is_some());
    assert!(g3.is_some());
    assert!(g4.is_none());
    assert!(g5.is_none());

    // create a new list
    let lid: u128 = 0x11;
    let pg_list = ListRow::new(lid, pg_user.user_id);
    let list_put = ids.put_list(pg_list);
    assert_eq!(list_put.lid, lid);
    assert!(list_put.created_on_utc.is_some());

    // create new items
    let item_1 = ItemRow::new(0x21, lid);
    let item_2 = ItemRow::new(0x22, lid);
    let item_3 = ItemRow::new(0x23, lid);

    let item_1p = ids.put_item(item_1);
    let item_2p = ids.put_item(item_2);
    let item_3p = ids.put_item(item_3);

    // get a single item
    let item_1g = ids.get_item(item_1p.liid);
    assert_eq!(Some(item_1p), item_1g);

    // get all items of the list, in insertion order
    let items_get = ids.get_items_for_list(lid);
    assert_eq!(items_get, Some(vec![item_1p, item_2p, item_3p]));

    // get a single list
    let list_get = ids.get_list(lid);
    assert_eq!(list_get, Some(list_put));

    // putting an existing key again leaves the stored row unchanged
    let list_again = ids.put_list(ListRow::new(lid, pg_user.user_id));
    assert_eq!(list_again, list_put);
    let item_again = ids.put_item(ItemRow::new(0x21, lid));
    assert_eq!(item_again, item_1p);

    // delete a single item
    ids.del_item(item_1.liid);
    assert!(ids.get_item(item_1.liid).is_none());
    assert!(ids.get_item(item_2.liid).is_some());

    // delete the list: the remaining items go with it
    ids.del_list(lid);
    assert!(ids.get_item(item_2.liid).is_none());
    assert!(ids.get_item(item_3.liid).is_none());
    assert!(ids.get_list(lid).is_none());

    // delete the user
    ids.del_user(pg_user.user_id);
    assert!(ids.get_user(Some(pg_user.user_id), None).is_none());
}

#[test]
fn test_put_user_is_idempotent_by_email() {
    let mut ids = IdentityStore::new();
    let u1 = ids.put_user("a@example.com".to_string());
    let u2 = ids.put_user("a@example.com".to_string());
    assert_eq!(u1, u2);
    let u3 = ids.put_user("b@example.com".to_string());
    assert_ne!(u1.user_id, u3.user_id);
}

#[test]
fn test_pick_unique_row_discipline() {
    let none: Vec<u32> = vec![];
    assert_eq!(pick_unique(none), (None, false));
    assert_eq!(pick_unique(vec![7u32]), (Some(7), false));
    // more than one row for a unique key: first row, anomaly flagged
    assert_eq!(pick_unique(vec![7u32, 8, 9]), (Some(7), true));
}
