//! The identity store: the relational side of the system, authoritative for
//! entity identity, ownership and audit timestamps. This module gives the
//! store's documented contract an executable, verified model — rows live in
//! vectors with key uniqueness as an invariant, and a monotonic counter
//! stands for the store's timestamp source, so `put` assigns a creation
//! timestamp on first insert and leaves it unchanged on repeat calls with
//! the same key (idempotent creation). Deleting a list cascades to its
//! items, as the real store's schema does.
//!
//! The synchronizers are verified against these contracts; an embedding
//! program talks to the real store and decodes its replies with
//! [`pick_unique`].

use vstd::prelude::*;

use crate::rows::{Id, ItemRow, ListRow, Timestamp, UserRow, UserRowV};

verus! {

/// Spec-level state of the identity store: the three row collections in
/// insertion order, and the value the store's timestamp source hands out
/// next.
#[verifier::ext_equal]
pub ghost struct IdentityStoreV {
    pub users: Seq<UserRowV>,
    pub lists: Seq<ListRow>,
    pub items: Seq<ItemRow>,
    pub clock: u64,
}

// --- filter predicates used by the contracts ---

/// Keep every list row but the one keyed `lid`.
pub open spec fn list_keeps(lid: Id) -> spec_fn(ListRow) -> bool {
    |l: ListRow| l.lid != lid
}

/// Keep every item row that does not belong to the list keyed `lid`.
pub open spec fn item_outside_list(lid: Id) -> spec_fn(ItemRow) -> bool {
    |it: ItemRow| it.parent_lid != lid
}

/// The item rows of the list keyed `lid`.
pub open spec fn item_in_list(lid: Id) -> spec_fn(ItemRow) -> bool {
    |it: ItemRow| it.parent_lid == lid
}

/// Keep every item row but the one keyed `liid`.
pub open spec fn item_keeps(liid: Id) -> spec_fn(ItemRow) -> bool {
    |it: ItemRow| it.liid != liid
}

/// The list rows owned by the user keyed `user_id`.
pub open spec fn list_owned_by(user_id: Id) -> spec_fn(ListRow) -> bool {
    |l: ListRow| l.user_id == Some(user_id)
}

/// Keep every user row but the one keyed `user_id`.
pub open spec fn user_keeps(user_id: Id) -> spec_fn(UserRowV) -> bool {
    |u: UserRowV| u.user_id != user_id
}

/// A user row matches a lookup key when at least one of id and email is
/// given and every given part agrees — both given means both must identify
/// the same row.
pub open spec fn user_key_matches(u: UserRowV, user_id: Option<Id>, email: Option<Seq<char>>) -> bool {
    &&& !(user_id is None && email is None)
    &&& (user_id matches Some(x) ==> u.user_id == x)
    &&& (email matches Some(e) ==> u.user_email == e)
}

// --- sequence lemmas shared by the store models ---

/// Filtering commutes with appending one element.
pub proof fn lemma_filter_push<A>(s: Seq<A>, p: spec_fn(A) -> bool, x: A)
    ensures
        s.push(x).filter(p) == (if p(x) {
            s.filter(p).push(x)
        } else {
            s.filter(p)
        }),
{
    reveal(Seq::filter);
    let t = s.push(x);
    assert(t.drop_last() =~= s);
    assert(t.last() == x);
}

/// Filtering keeps only (some of) the original elements, so pairwise-distinct
/// keys stay pairwise distinct.
pub proof fn lemma_filter_keeps_distinct_keys<A, K>(s: Seq<A>, p: spec_fn(A) -> bool, key: spec_fn(A) -> K)
    requires
        forall|i: int, j: int| 0 <= i < j < s.len() ==> key(s[i]) != key(s[j]),
    ensures
        forall|i: int|
            0 <= i < s.filter(p).len() ==> exists|j: int| 0 <= j < s.len() && #[trigger] s.filter(p)[i] == s[j],
        forall|i: int, j: int|
            0 <= i < j < s.filter(p).len() ==> key(#[trigger] s.filter(p)[i]) != key(#[trigger] s.filter(p)[j]),
    decreases s.len(),
{
    reveal(Seq::filter);
    if s.len() > 0 {
        let dl = s.drop_last();
        let f = s.filter(p);
        let fdl = dl.filter(p);
        assert(forall|i: int| 0 <= i < dl.len() ==> dl[i] == s[i]);
        lemma_filter_keeps_distinct_keys(dl, p, key);
        assert forall|i: int|
            0 <= i < f.len() implies exists|j: int| 0 <= j < s.len() && #[trigger] f[i] == s[j] by {
            if i < fdl.len() {
                assert(f[i] == fdl[i]);
                let j = choose|j: int| 0 <= j < dl.len() && fdl[i] == dl[j];
                assert(f[i] == s[j]);
            } else {
                assert(p(s.last()) && f[i] == s[s.len() - 1]);
            }
        }
        assert forall|i: int, j: int|
            0 <= i < j < f.len() implies key(#[trigger] f[i]) != key(#[trigger] f[j]) by {
            let wi = choose|w: int| 0 <= w < s.len() && f[i] == s[w];
            if j < fdl.len() {
                assert(f[i] == fdl[i] && f[j] == fdl[j]);
            } else {
                assert(j == f.len() - 1 && i < fdl.len());
                assert(f[j] == s.last());
                assert(fdl[i] == dl[choose|w: int| 0 <= w < dl.len() && fdl[i] == dl[w]]);
                let w = choose|w: int| 0 <= w < dl.len() && fdl[i] == dl[w];
                assert(f[i] == s[w] && w < s.len() - 1);
            }
        }
    }
}

impl IdentityStoreV {
    /// Key uniqueness across each collection, persisted timestamps on every
    /// stored row, and freshness of the ids the store will assign next.
    pub open spec fn wf(self) -> bool {
        &&& forall|i: int, j: int|
            0 <= i < j < self.users.len() ==> self.users[i].user_id != self.users[j].user_id
        &&& forall|i: int, j: int|
            0 <= i < j < self.users.len() ==> self.users[i].user_email != self.users[j].user_email
        &&& forall|i: int, j: int| 0 <= i < j < self.lists.len() ==> self.lists[i].lid != self.lists[j].lid
        &&& forall|i: int, j: int| 0 <= i < j < self.items.len() ==> self.items[i].liid != self.items[j].liid
        &&& forall|i: int| 0 <= i < self.lists.len() ==> (#[trigger] self.lists[i]).created_on_utc is Some
        &&& forall|i: int| 0 <= i < self.items.len() ==> (#[trigger] self.items[i]).created_on_utc is Some
        &&& forall|i: int| 0 <= i < self.users.len() ==> (#[trigger] self.users[i]).user_id < self.clock as Id
    }

    pub open spec fn has_list(self, lid: Id) -> bool {
        exists|i: int| 0 <= i < self.lists.len() && self.lists[i].lid == lid
    }

    /// The list row keyed `lid`, when one exists.
    pub open spec fn spec_find_list(self, lid: Id) -> Option<ListRow> {
        if self.has_list(lid) {
            Some(self.lists[choose|i: int| 0 <= i < self.lists.len() && self.lists[i].lid == lid])
        } else {
            None
        }
    }

    pub open spec fn has_item(self, liid: Id) -> bool {
        exists|i: int| 0 <= i < self.items.len() && self.items[i].liid == liid
    }

    /// The item row keyed `liid`, when one exists.
    pub open spec fn spec_find_item(self, liid: Id) -> Option<ItemRow> {
        if self.has_item(liid) {
            Some(self.items[choose|i: int| 0 <= i < self.items.len() && self.items[i].liid == liid])
        } else {
            None
        }
    }

    pub open spec fn has_user_email(self, email: Seq<char>) -> bool {
        exists|i: int| 0 <= i < self.users.len() && self.users[i].user_email == email
    }

    /// The user row with the given email, when one exists.
    pub open spec fn spec_find_user_by_email(self, email: Seq<char>) -> Option<UserRowV> {
        if self.has_user_email(email) {
            Some(self.users[choose|i: int| 0 <= i < self.users.len() && self.users[i].user_email == email])
        } else {
            None
        }
    }

    pub open spec fn has_user_key(self, user_id: Option<Id>, email: Option<Seq<char>>) -> bool {
        exists|i: int| 0 <= i < self.users.len() && user_key_matches(self.users[i], user_id, email)
    }

    /// The user row matching the lookup key, when one exists.
    pub open spec fn spec_get_user(self, user_id: Option<Id>, email: Option<Seq<char>>) -> Option<UserRowV> {
        if self.has_user_key(user_id, email) {
            Some(
                self.users[choose|i: int|
                    0 <= i < self.users.len() && user_key_matches(self.users[i], user_id, email)],
            )
        } else {
            None
        }
    }

    /// What `put` does for a list: return the stored row unchanged when the
    /// key exists, else insert a fresh row stamped with the store clock.
    pub open spec fn spec_put_list(self, row: ListRow) -> (IdentityStoreV, ListRow) {
        match self.spec_find_list(row.lid) {
            Some(ex) => (self, ex),
            None => {
                let fresh = ListRow {
                    lid: row.lid,
                    user_id: row.user_id,
                    org_id: None,
                    created_on_utc: Some(self.clock),
                    validated_on_utc: None,
                };
                (
                    IdentityStoreV {
                        lists: self.lists.push(fresh),
                        clock: (self.clock + 1) as u64,
                        ..self
                    },
                    fresh,
                )
            },
        }
    }

    /// What `put` does for an item: the same idempotent-creation shape as
    /// for a list.
    pub open spec fn spec_put_item(self, row: ItemRow) -> (IdentityStoreV, ItemRow) {
        match self.spec_find_item(row.liid) {
            Some(ex) => (self, ex),
            None => {
                let fresh = ItemRow {
                    liid: row.liid,
                    parent_lid: row.parent_lid,
                    child_lid: None,
                    origin_liid: None,
                    origin_lid: None,
                    top_liid: None,
                    top_lid: None,
                    user_id: None,
                    org_id: None,
                    created_on_utc: Some(self.clock),
                    validated_on_utc: None,
                };
                (
                    IdentityStoreV {
                        items: self.items.push(fresh),
                        clock: (self.clock + 1) as u64,
                        ..self
                    },
                    fresh,
                )
            },
        }
    }

    /// What `put` does for a user: users are keyed by email, and the store
    /// assigns the user id as well as the timestamp.
    pub open spec fn spec_put_user(self, email: Seq<char>) -> (IdentityStoreV, UserRowV) {
        match self.spec_find_user_by_email(email) {
            Some(ex) => (self, ex),
            None => {
                let fresh = UserRowV {
                    user_id: self.clock as Id,
                    user_email: email,
                    org_id: None,
                    created_on_utc: self.clock,
                    validated_on_utc: None,
                };
                (
                    IdentityStoreV {
                        users: self.users.push(fresh),
                        clock: (self.clock + 1) as u64,
                        ..self
                    },
                    fresh,
                )
            },
        }
    }

    /// Deleting a list removes its row and cascades to every item row of
    /// that list.
    pub open spec fn spec_del_list(self, lid: Id) -> IdentityStoreV {
        IdentityStoreV {
            lists: self.lists.filter(list_keeps(lid)),
            items: self.items.filter(item_outside_list(lid)),
            ..self
        }
    }

    /// Deleting an item removes just its row.
    pub open spec fn spec_del_item(self, liid: Id) -> IdentityStoreV {
        IdentityStoreV { items: self.items.filter(item_keeps(liid)), ..self }
    }

    /// Deleting a user removes just its row.
    pub open spec fn spec_del_user(self, user_id: Id) -> IdentityStoreV {
        IdentityStoreV { users: self.users.filter(user_keeps(user_id)), ..self }
    }
}

/// Executable model of the identity store.
#[derive(Debug)]
pub struct IdentityStore {
    pub users: Vec<UserRow>,
    pub lists: Vec<ListRow>,
    pub items: Vec<ItemRow>,
    pub clock: u64,
}

impl View for IdentityStore {
    type V = IdentityStoreV;

    open spec fn view(&self) -> IdentityStoreV {
        IdentityStoreV {
            users: self.users.deep_view(),
            lists: self.lists@,
            items: self.items@,
            clock: self.clock,
        }
    }
}

impl IdentityStore {
    /// An empty store whose timestamp source starts at 1.
    pub fn new() -> (r: IdentityStore)
        ensures
            r@ == (IdentityStoreV {
                users: Seq::<UserRowV>::empty(),
                lists: Seq::<ListRow>::empty(),
                items: Seq::<ItemRow>::empty(),
                clock: 1u64,
            }),
            r@.wf(),
    {
        let r = IdentityStore { users: Vec::new(), lists: Vec::new(), items: Vec::new(), clock: 1 };
        proof {
            assert(r.users.deep_view() =~= Seq::<UserRowV>::empty());
        }
        r
    }

    /// Point lookup of a list row; zero rows is a normal absent result.
    #[verifier::loop_isolation(false)]
    pub fn get_list(&self, lid: Id) -> (r: Option<ListRow>)
        requires
            self@.wf(),
        ensures
            r == self@.spec_find_list(lid),
    {
        let mut i: usize = 0;
        while i < self.lists.len()
            invariant
                i <= self.lists.len(),
                forall|j: int| 0 <= j < i ==> self.lists@[j].lid != lid,
            decreases self.lists.len() - i,
        {
            if self.lists[i].lid == lid {
                return Some(self.lists[i]);
            }
            i = i + 1;
        }
        None
    }

    /// Point lookup of an item row.
    #[verifier::loop_isolation(false)]
    pub fn get_item(&self, liid: Id) -> (r: Option<ItemRow>)
        requires
            self@.wf(),
        ensures
            r == self@.spec_find_item(liid),
    {
        let mut i: usize = 0;
        while i < self.items.len()
            invariant
                i <= self.items.len(),
                forall|j: int| 0 <= j < i ==> self.items@[j].liid != liid,
            decreases self.items.len() - i,
        {
            if self.items[i].liid == liid {
                return Some(self.items[i]);
            }
            i = i + 1;
        }
        None
    }

    /// Upsert a list row: idempotent creation with a store-assigned
    /// creation timestamp.
    pub fn put_list(&mut self, row: ListRow) -> (r: ListRow)
        requires
            old(self)@.wf(),
            old(self).clock < u64::MAX,
        ensures
            final(self)@ == old(self)@.spec_put_list(row).0,
            r == old(self)@.spec_put_list(row).1,
            final(self)@.wf(),
            r.lid == row.lid,
            r.created_on_utc is Some,
    {
        match self.get_list(row.lid) {
            Some(ex) => ex,
            None => {
                let fresh = ListRow {
                    lid: row.lid,
                    user_id: row.user_id,
                    org_id: None,
                    created_on_utc: Some(self.clock),
                    validated_on_utc: None,
                };
                self.lists.push(fresh);
                self.clock = self.clock + 1;
                proof {
                    assert(final(self)@ =~= old(self)@.spec_put_list(row).0);
                }
                fresh
            },
        }
    }

    /// Upsert an item row: idempotent creation with a store-assigned
    /// creation timestamp.
    pub fn put_item(&mut self, row: ItemRow) -> (r: ItemRow)
        requires
            old(self)@.wf(),
            old(self).clock < u64::MAX,
        ensures
            final(self)@ == old(self)@.spec_put_item(row).0,
            r == old(self)@.spec_put_item(row).1,
            final(self)@.wf(),
            r.liid == row.liid,
            r.created_on_utc is Some,
    {
        match self.get_item(row.liid) {
            Some(ex) => ex,
            None => {
                let fresh = ItemRow {
                    liid: row.liid,
                    parent_lid: row.parent_lid,
                    child_lid: None,
                    origin_liid: None,
                    origin_lid: None,
                    top_liid: None,
                    top_lid: None,
                    user_id: None,
                    org_id: None,
                    created_on_utc: Some(self.clock),
                    validated_on_utc: None,
                };
                self.items.push(fresh);
                self.clock = self.clock + 1;
                proof {
                    assert(final(self)@ =~= old(self)@.spec_put_item(row).0);
                }
                fresh
            },
        }
    }

    /// Upsert a user by email: the store assigns both the user id and the
    /// creation timestamp, and a repeat call with a stored email returns the
    /// stored row unchanged.
    #[verifier::loop_isolation(false)]
    pub fn put_user(&mut self, email: String) -> (r: UserRow)
        requires
            old(self)@.wf(),
            old(self).clock < u64::MAX,
        ensures
            final(self)@ == old(self)@.spec_put_user(email@).0,
            r@ == old(self)@.spec_put_user(email@).1,
            final(self)@.wf(),
            r.user_email@ == email@,
    {
        let mut i: usize = 0;
        while i < self.users.len()
            invariant
                i <= self.users.len(),
                forall|j: int| 0 <= j < i ==> self.users.deep_view()[j].user_email != email@,
            decreases self.users.len() - i,
        {
            if self.users[i].user_email == email {
                let r = self.users[i].clone();
                proof {
                    assert(self.users.deep_view()[i as int].user_email == email@);
                }
                return r;
            }
            i = i + 1;
        }
        let fresh = UserRow {
            user_id: self.clock as Id,
            user_email: email,
            org_id: None,
            created_on_utc: self.clock,
            validated_on_utc: None,
        };
        let r = fresh.clone();
        self.users.push(fresh);
        self.clock = self.clock + 1;
        proof {
            assert(final(self)@.users =~= old(self)@.users.push(r@));
            assert(final(self)@ =~= old(self)@.spec_put_user(email@).0);
        }
        r
    }

    /// Look a user up by id, by email, or by both; when both are given the
    /// result is present only if both identify the same row. A lookup with
    /// neither part is absent by definition.
    #[verifier::loop_isolation(false)]
    pub fn get_user(&self, user_id: Option<Id>, user_email: Option<String>) -> (r: Option<UserRow>)
        requires
            self@.wf(),
        ensures
            r.deep_view() == self@.spec_get_user(user_id, user_email.deep_view()),
    {
        if user_id.is_none() && user_email.is_none() {
            return None;
        }
        let mut i: usize = 0;
        while i < self.users.len()
            invariant
                i <= self.users.len(),
                forall|j: int|
                    0 <= j < i ==> !user_key_matches(
                        self.users.deep_view()[j],
                        user_id,
                        user_email.deep_view(),
                    ),
            decreases self.users.len() - i,
        {
            let id_ok = match user_id {
                Some(x) => self.users[i].user_id == x,
                None => true,
            };
            let email_ok = match &user_email {
                Some(e) => self.users[i].user_email == *e,
                None => true,
            };
            if id_ok && email_ok {
                let r = self.users[i].clone();
                proof {
                    assert(user_key_matches(self.users.deep_view()[i as int], user_id, user_email.deep_view()));
                    let c = choose|c: int|
                        0 <= c < self@.users.len() && user_key_matches(
                            self@.users[c],
                            user_id,
                            user_email.deep_view(),
                        );
                    assert(c == i) by {
                        assert(!(c < i) && !(i < c));
                    }
                }
                return Some(r);
            }
            i = i + 1;
        }
        None
    }

    /// Delete a list row; the store's schema cascades to every item of that
    /// list. Deleting an absent key is a no-op.
    #[verifier::loop_isolation(false)]
    pub fn del_list(&mut self, lid: Id)
        requires
            old(self)@.wf(),
        ensures
            final(self)@ == old(self)@.spec_del_list(lid),
            final(self)@.wf(),
    {
        let mut kept: Vec<ListRow> = Vec::new();
        let mut i: usize = 0;
        while i < self.lists.len()
            invariant
                i <= self.lists.len(),
                kept@ == self.lists@.take(i as int).filter(list_keeps(lid)),
            decreases self.lists.len() - i,
        {
            proof {
                lemma_filter_push(self.lists@.take(i as int), list_keeps(lid), self.lists@[i as int]);
                assert(self.lists@.take(i as int + 1) =~= self.lists@.take(i as int).push(
                    self.lists@[i as int],
                ));
            }
            if self.lists[i].lid != lid {
                kept.push(self.lists[i]);
            }
            i = i + 1;
        }
        let mut kept_items: Vec<ItemRow> = Vec::new();
        let mut i: usize = 0;
        while i < self.items.len()
            invariant
                i <= self.items.len(),
                kept_items@ == self.items@.take(i as int).filter(item_outside_list(lid)),
            decreases self.items.len() - i,
        {
            proof {
                lemma_filter_push(self.items@.take(i as int), item_outside_list(lid), self.items@[i as int]);
                assert(self.items@.take(i as int + 1) =~= self.items@.take(i as int).push(
                    self.items@[i as int],
                ));
            }
            if self.items[i].parent_lid != lid {
                kept_items.push(self.items[i]);
            }
            i = i + 1;
        }
        self.lists = kept;
        self.items = kept_items;
        proof {
            assert(old(self)@.lists.take(old(self)@.lists.len() as int) =~= old(self)@.lists);
            assert(old(self)@.items.take(old(self)@.items.len() as int) =~= old(self)@.items);
            assert(final(self)@ =~= old(self)@.spec_del_list(lid));
            lemma_filter_keeps_distinct_keys(old(self)@.lists, list_keeps(lid), |l: ListRow| l.lid);
            lemma_filter_keeps_distinct_keys(
                old(self)@.items,
                item_outside_list(lid),
                |it: ItemRow| it.liid,
            );
        }
    }

    /// Delete a single item row. Deleting an absent key is a no-op.
    #[verifier::loop_isolation(false)]
    pub fn del_item(&mut self, liid: Id)
        requires
            old(self)@.wf(),
        ensures
            final(self)@ == old(self)@.spec_del_item(liid),
            final(self)@.wf(),
    {
        let mut kept: Vec<ItemRow> = Vec::new();
        let mut i: usize = 0;
        while i < self.items.len()
            invariant
                i <= self.items.len(),
                kept@ == self.items@.take(i as int).filter(item_keeps(liid)),
            decreases self.items.len() - i,
        {
            proof {
                lemma_filter_push(self.items@.take(i as int), item_keeps(liid), self.items@[i as int]);
                assert(self.items@.take(i as int + 1) =~= self.items@.take(i as int).push(
                    self.items@[i as int],
                ));
            }
            if self.items[i].liid != liid {
                kept.push(self.items[i]);
            }
            i = i + 1;
        }
        self.items = kept;
        proof {
            assert(old(self)@.items.take(old(self)@.items.len() as int) =~= old(self)@.items);
            assert(final(self)@ =~= old(self)@.spec_del_item(liid));
            lemma_filter_keeps_distinct_keys(old(self)@.items, item_keeps(liid), |it: ItemRow| it.liid);
        }
    }

    /// Delete a single user row. Deleting an absent key is a no-op.
    #[verifier::loop_isolation(false)]
    pub fn del_user(&mut self, user_id: Id)
        requires
            old(self)@.wf(),
        ensures
            final(self)@ == old(self)@.spec_del_user(user_id),
            final(self)@.wf(),
    {
        let mut kept: Vec<UserRow> = Vec::new();
        let mut i: usize = 0;
        while i < self.users.len()
            invariant
                i <= self.users.len(),
                kept.deep_view() == self.users.deep_view().take(i as int).filter(user_keeps(user_id)),
            decreases self.users.len() - i,
        {
            proof {
                lemma_filter_push(
                    self.users.deep_view().take(i as int),
                    user_keeps(user_id),
                    self.users.deep_view()[i as int],
                );
                assert(self.users.deep_view().take(i as int + 1) =~= self.users.deep_view().take(
                    i as int,
                ).push(self.users.deep_view()[i as int]));
            }
            if self.users[i].user_id != user_id {
                let u = self.users[i].clone();
                kept.push(u);
                proof {
                    assert(kept.deep_view() =~= self.users.deep_view().take(i as int + 1).filter(
                        user_keeps(user_id),
                    ));
                }
            }
            i = i + 1;
        }
        self.users = kept;
        proof {
            assert(old(self)@.users.take(old(self)@.users.len() as int) =~= old(self)@.users);
            assert(final(self)@ =~= old(self)@.spec_del_user(user_id));
            lemma_filter_keeps_distinct_keys(old(self)@.users, user_keeps(user_id), |u: UserRowV| u.user_id);
        }
    }

    /// All item rows of one list, in insertion order; zero rows is the
    /// normal absent result, not an error.
    #[verifier::loop_isolation(false)]
    pub fn get_items_for_list(&self, lid: Id) -> (r: Option<Vec<ItemRow>>)
        requires
            self@.wf(),
        ensures
            ({
                let f = self@.items.filter(item_in_list(lid));
                match r {
                    Some(v) => v@ == f && f.len() > 0,
                    None => f.len() == 0,
                }
            }),
    {
        let mut found: Vec<ItemRow> = Vec::new();
        let mut i: usize = 0;
        while i < self.items.len()
            invariant
                i <= self.items.len(),
                found@ == self.items@.take(i as int).filter(item_in_list(lid)),
            decreases self.items.len() - i,
        {
            proof {
                lemma_filter_push(self.items@.take(i as int), item_in_list(lid), self.items@[i as int]);
                assert(self.items@.take(i as int + 1) =~= self.items@.take(i as int).push(
                    self.items@[i as int],
                ));
            }
            if self.items[i].parent_lid == lid {
                found.push(self.items[i]);
            }
            i = i + 1;
        }
        proof {
            assert(self@.items.take(self@.items.len() as int) =~= self@.items);
        }
        if found.len() == 0 {
            None
        } else {
            Some(found)
        }
    }

    /// All list rows owned by one user, in insertion order; zero rows is the
    /// normal absent result.
    #[verifier::loop_isolation(false)]
    pub fn get_user_lists(&self, user_id: Id) -> (r: Option<Vec<ListRow>>)
        requires
            self@.wf(),
        ensures
            ({
                let f = self@.lists.filter(list_owned_by(user_id));
                match r {
                    Some(v) => v@ == f && f.len() > 0,
                    None => f.len() == 0,
                }
            }),
    {
        let mut found: Vec<ListRow> = Vec::new();
        let mut i: usize = 0;
        while i < self.lists.len()
            invariant
                i <= self.lists.len(),
                found@ == self.lists@.take(i as int).filter(list_owned_by(user_id)),
            decreases self.lists.len() - i,
        {
            proof {
                lemma_filter_push(self.lists@.take(i as int), list_owned_by(user_id), self.lists@[i as int]);
                assert(self.lists@.take(i as int + 1) =~= self.lists@.take(i as int).push(
                    self.lists@[i as int],
                ));
            }
            let keep = match self.lists[i].user_id {
                Some(u) => u == user_id,
                None => false,
            };
            if keep {
                found.push(self.lists[i]);
            }
            i = i + 1;
        }
        proof {
            assert(self@.lists.take(self@.lists.len() as int) =~= self@.lists);
        }
        if found.len() == 0 {
            None
        } else {
            Some(found)
        }
    }
}

/// The row-count discipline for decoding a reply from the real relational
/// store: zero rows is a normal absent result; one row is the entity; more
/// than one row for a unique key is a latent data bug — the first row is
/// still returned, defensively, and the second component flags the anomaly
/// so the caller can log it rather than silently ignore it.
pub fn pick_unique<T>(rows: Vec<T>) -> (r: (Option<T>, bool))
    ensures
        rows@.len() == 0 ==> r.0 is None && !r.1,
        rows@.len() >= 1 ==> r.0 == Some(rows@[0]),
        r.1 == (rows@.len() > 1),
{
    let anomalous = rows.len() > 1;
    let mut rows = rows;
    if rows.len() == 0 {
        (None, false)
    } else {
        rows.truncate(1);
        let first = rows.pop();
        (first, anomalous)
    }
}

} // verus!
