//! A typed access layer over an embedded, ordered key-value store.
//!
//! Values are stored under byte-string keys, grouped into independent
//! named trees. Each value crosses the storage boundary in a fixed,
//! deterministic binary layout ([`codec`]); a tree offers single-key
//! reads and writes, ordered scans, and single- and two-tree atomic
//! transactions ([`trees`]).

use vstd::prelude::*;

pub mod codec;
pub mod connection;
pub mod engine;
pub mod orm;
pub mod trees;
pub mod tx;

verus! {

/// A handle to one open store. Cheap to clone through [`Connection::get_orm`];
/// the underlying store lives as long as any handle.
pub struct Connection {
    pub(crate) db: sled::Db,
}

/// A factory for [`Tree`] handles, derived from a [`Connection`].
pub struct ORM {
    pub(crate) conn: Connection,
}

/// One independently keyed, ordered partition of the store.
pub struct Tree {
    pub(crate) conn: Connection,
    pub(crate) tree: engine::EngineTree,
}

} // verus!
