//! Identity rows: the relational records that establish an entity's id,
//! ownership and audit timestamps. The identity store is authoritative for
//! these; a row's creation timestamp is assigned by the store on first
//! successful insert, so a row whose `created_on_utc` is absent is an
//! in-memory draft that has never been persisted.

use vstd::prelude::*;

verus! {

/// An entity identifier: a 128-bit value (a UUID in the real stores).
pub type Id = u128;

/// A store-assigned audit timestamp.
pub type Timestamp = u64;

/// Identity row for a list.
#[derive(Clone, Copy, Debug, PartialEq, Eq)]
pub struct ListRow {
    pub lid: Id,
    pub user_id: Option<Id>,
    pub org_id: Option<Id>,
    pub created_on_utc: Option<Timestamp>,
    pub validated_on_utc: Option<Timestamp>,
}

/// Identity row for a list item. The lineage pointers (`origin_*`, `top_*`)
/// record where a copied or derived item came from; the optional `child_lid`
/// nests another list inside the item.
#[derive(Clone, Copy, Debug, PartialEq, Eq)]
pub struct ItemRow {
    pub liid: Id,
    pub parent_lid: Id,
    pub child_lid: Option<Id>,
    pub origin_liid: Option<Id>,
    pub origin_lid: Option<Id>,
    pub top_liid: Option<Id>,
    pub top_lid: Option<Id>,
    pub user_id: Option<Id>,
    pub org_id: Option<Id>,
    pub created_on_utc: Option<Timestamp>,
    pub validated_on_utc: Option<Timestamp>,
}

/// Identity row for a user. Users exist only in the identity store; both the
/// user id and the creation timestamp are assigned by the store.
#[derive(Debug, PartialEq, Eq)]
pub struct UserRow {
    pub user_id: Id,
    pub user_email: String,
    pub org_id: Option<Id>,
    pub created_on_utc: Timestamp,
    pub validated_on_utc: Option<Timestamp>,
}

/// Spec-level shape of a `UserRow`, with the email as a character sequence.
pub ghost struct UserRowV {
    pub user_id: Id,
    pub user_email: Seq<char>,
    pub org_id: Option<Id>,
    pub created_on_utc: Timestamp,
    pub validated_on_utc: Option<Timestamp>,
}

impl View for UserRow {
    type V = UserRowV;

    open spec fn view(&self) -> UserRowV {
        UserRowV {
            user_id: self.user_id,
            user_email: self.user_email@,
            org_id: self.org_id,
            created_on_utc: self.created_on_utc,
            validated_on_utc: self.validated_on_utc,
        }
    }
}

impl DeepView for UserRow {
    type V = UserRowV;

    open spec fn deep_view(&self) -> UserRowV {
        self.view()
    }
}

impl Clone for UserRow {
    fn clone(&self) -> (r: Self)
        ensures
            r == *self,
    {
        UserRow {
            user_id: self.user_id,
            user_email: self.user_email.clone(),
            org_id: self.org_id,
            created_on_utc: self.created_on_utc,
            validated_on_utc: self.validated_on_utc,
        }
    }
}

impl ListRow {
    /// A row is persisted once the identity store has assigned its creation
    /// timestamp; before that it is a draft.
    pub open spec fn is_persisted(self) -> bool {
        self.created_on_utc is Some
    }

    /// A fresh draft row: only the required fields are set, and no creation
    /// timestamp, so the synchronizer knows it has never been stored.
    pub fn new(lid: Id, user_id: Id) -> (r: ListRow)
        ensures
            r == (ListRow {
                lid,
                user_id: Some(user_id),
                org_id: None,
                created_on_utc: None,
                validated_on_utc: None,
            }),
    {
        ListRow { lid, user_id: Some(user_id), org_id: None, created_on_utc: None, validated_on_utc: None }
    }
}

impl ItemRow {
    /// A row is persisted once the identity store has assigned its creation
    /// timestamp; before that it is a draft.
    pub open spec fn is_persisted(self) -> bool {
        self.created_on_utc is Some
    }

    /// A fresh draft row with only the two identifying fields set.
    pub fn new(liid: Id, parent_lid: Id) -> (r: ItemRow)
        ensures
            r == (ItemRow {
                liid,
                parent_lid,
                child_lid: None,
                origin_liid: None,
                origin_lid: None,
                top_liid: None,
                top_lid: None,
                user_id: None,
                org_id: None,
                created_on_utc: None,
                validated_on_utc: None,
            }),
    {
        ItemRow {
            liid,
            parent_lid,
            child_lid: None,
            origin_liid: None,
            origin_lid: None,
            top_liid: None,
            top_lid: None,
            user_id: None,
            org_id: None,
            created_on_utc: None,
            validated_on_utc: None,
        }
    }
}

} // verus!
