//! Opening a store and deriving handles from it.

use crate::engine;
use crate::trees::StoreError;
use crate::Connection;
use crate::ORM;
use vstd::prelude::*;

verus! {

impl Connection {
    /// Opens (or creates) the store at `path`.
    pub fn new(path: &str) -> (r: Result<Connection, StoreError>)
        ensures
            r matches Err(e) ==> e is Engine,
    {
        match engine::engine_open(path) {
            Ok(db) => Ok(Connection { db }),
            Err(e) => Err(StoreError::Engine(e)),
        }
    }

    /// The raw engine handle this connection wraps.
    pub fn get_instance(&self) -> &sled::Db {
        &self.db
    }

    /// A tree factory over a second handle to the same store.
    pub fn get_orm(&self) -> ORM {
        ORM { conn: Connection { db: engine::engine_clone_db(&self.db) } }
    }
}

} // verus!
