//! Synchronization of "list" aggregates across two stores: a relational
//! identity store that is authoritative for entity identity and audit
//! timestamps, and a document aggregate store that holds the denormalized
//! read shape.
//!
//! The synchronization protocol itself is pure logic: every operation is a
//! short sequence of store actions with a decision between each two. Those
//! decisions live here as verified step functions (`protocol`), and the two
//! stores are modelled by verified in-memory implementations of their
//! documented contracts (`identity_store`, `aggregate_store`). The drivers in
//! `sync` run each protocol to completion against the in-memory stores and
//! carry the end-to-end contracts; `laws` proves the cross-operation
//! properties. An embedding program performs the same actions against the
//! real stores and feeds the events back to the step functions.

pub mod aggregate;
pub mod aggregate_store;
pub mod identity_store;
pub mod laws;
pub mod protocol;
pub mod rows;
pub mod sync;
