//! Opening named trees.

use crate::engine;
use crate::trees::StoreError;
use crate::Connection;
use crate::Tree;
use crate::ORM;
use vstd::prelude::*;

verus! {

impl ORM {
    /// Opens (or creates) the tree called `name`: opening an existing
    /// name yields a handle onto the same partition. A freshly opened
    /// tree holds finitely many keys.
    pub fn tree(&self, name: &str) -> (r: Result<Tree, StoreError>)
        ensures
            r matches Ok(t) ==> t.contents().dom().finite(),
            r matches Err(e) ==> e is Engine,
    {
        match engine::engine_open_tree(&self.conn.db, name) {
            Ok(tree) => Ok(
                Tree::from_parts(Connection { db: engine::engine_clone_db(&self.conn.db) }, tree),
            ),
            Err(e) => Err(StoreError::Engine(e)),
        }
    }
}

} // verus!
