//! The boundary with the storage engine.
//!
//! The engine (sled) is an embedded, ordered key-value store. This module
//! declares its types for the verifier and gives each engine call the
//! library relies on a small trusted wrapper. Every wrapper's contract is
//! stated over `tree_contents`, the mathematical contents of one tree: a
//! map from key bytes to value bytes.
//!
//! The contracts model each tree handle as the sole live handle to its
//! partition: what a concurrently held second handle to the same
//! partition writes is outside what they state.

use vstd::prelude::*;

verus! {

#[verifier::external_type_specification]
#[verifier::external_body]
pub struct ExDb(sled::Db);

#[verifier::external_type_specification]
#[verifier::external_body]
pub struct ExError(sled::Error);

#[verifier::external_type_specification]
#[verifier::external_body]
pub struct ExTransactionalTree(sled::transaction::TransactionalTree);

/// One engine tree handle, held opaquely: the verifier sees its contents
/// only through `tree_contents` and the trusted wrappers.
#[verifier::external_body]
pub struct EngineTree {
    pub(crate) inner: sled::Tree,
}

/// The contents of one tree: the map from stored key bytes to stored
/// value bytes.
pub uninterp spec fn tree_contents(t: EngineTree) -> Map<Seq<u8>, Seq<u8>>;

/// Strict byte-lexicographic order on keys: the order in which the
/// engine iterates a tree.
pub open spec fn lex_lt(a: Seq<u8>, b: Seq<u8>) -> bool
    decreases a.len(),
{
    if a.len() == 0 {
        b.len() > 0
    } else if b.len() == 0 {
        false
    } else if a[0] < b[0] {
        true
    } else if a[0] > b[0] {
        false
    } else {
        lex_lt(a.skip(1), b.skip(1))
    }
}

/// The views of a sequence of key/value byte vectors.
pub open spec fn pairs_view(ps: Seq<(Vec<u8>, Vec<u8>)>) -> Seq<(Seq<u8>, Seq<u8>)> {
    ps.map_values(|p: (Vec<u8>, Vec<u8>)| (p.0@, p.1@))
}

/// What one ordered scan of contents `m` yields: every listed pair is
/// stored, keys strictly ascend, and every stored key is listed.
pub open spec fn scan_of(pairs: Seq<(Seq<u8>, Seq<u8>)>, m: Map<Seq<u8>, Seq<u8>>) -> bool {
    &&& forall|i: int|
        0 <= i < pairs.len() ==> #[trigger] m.contains_pair(pairs[i].0, pairs[i].1)
    &&& forall|i: int, j: int| 0 <= i < j < pairs.len() ==> lex_lt(pairs[i].0, pairs[j].0)
    &&& forall|k: Seq<u8>|
        #[trigger] m.dom().contains(k) ==> exists|i: int|
            0 <= i < pairs.len() && (#[trigger] pairs[i]).0 == k
}

/// Relies on sled::open: opens (or creates) a store at the given path.
#[verifier::external_body]
pub(crate) fn engine_open(path: &str) -> (r: Result<sled::Db, sled::Error>) {
    sled::open(path)
}

/// Relies on sled::Db::clone: a second handle to the same store.
#[verifier::external_body]
pub(crate) fn engine_clone_db(db: &sled::Db) -> (r: sled::Db) {
    db.clone()
}

/// Relies on sled::Db::open_tree: opens (or creates) the named tree,
/// idempotently by name. A tree on disk holds finitely many keys.
#[verifier::external_body]
pub(crate) fn engine_open_tree(db: &sled::Db, name: &str) -> (r: Result<EngineTree, sled::Error>)
    ensures
        r matches Ok(t) ==> tree_contents(t).dom().finite(),
{
    match db.open_tree(name.as_bytes()) {
        Ok(t) => Ok(EngineTree { inner: t }),
        Err(e) => Err(e),
    }
}

impl EngineTree {
    /// Relies on sled::Tree::get: returns a copy of the bytes stored
    /// under the key, or nothing when the key is absent.
    #[verifier::external_body]
    pub(crate) fn raw_get(&self, key: &[u8]) -> (r: Result<Option<Vec<u8>>, sled::Error>)
        ensures
            r matches Ok(o) ==> match o {
                Some(v) => tree_contents(*self).contains_key(key@) && v@ == tree_contents(
                    *self,
                )[key@],
                None => !tree_contents(*self).contains_key(key@),
            },
    {
        match self.inner.get(key) {
            Ok(Some(iv)) => Ok(Some(iv.to_vec())),
            Ok(None) => Ok(None),
            Err(e) => Err(e),
        }
    }

    /// Relies on sled::Tree::insert: stores the bytes under the key,
    /// overwriting any previous value; on failure nothing was written.
    #[verifier::external_body]
    pub(crate) fn raw_insert(&mut self, key: &[u8], value: &[u8]) -> (r: Result<(), sled::Error>)
        ensures
            r is Ok ==> tree_contents(*final (self)) == tree_contents(*old(self)).insert(
                key@,
                value@,
            ),
            r is Err ==> tree_contents(*final (self)) == tree_contents(*old(self)),
    {
        match self.inner.insert(key, value) {
            Ok(_) => Ok(()),
            Err(e) => Err(e),
        }
    }

    /// Relies on sled::Tree::iter: one full scan over a consistent
    /// snapshot of the tree, yielding each stored pair exactly once, in
    /// ascending byte-lexicographic key order.
    #[verifier::external_body]
    pub(crate) fn raw_scan(&self) -> (r: Result<Vec<(Vec<u8>, Vec<u8>)>, sled::Error>)
        ensures
            r matches Ok(pairs) ==> scan_of(pairs_view(pairs@), tree_contents(*self)),
    {
        let mut out: Vec<(Vec<u8>, Vec<u8>)> = Vec::new();
        for item in self.inner.iter() {
            match item {
                Ok((k, v)) => out.push((k.to_vec(), v.to_vec())),
                Err(e) => return Err(e),
            }
        }
        Ok(out)
    }

    /// Relies on sled::Tree::remove: removes the key; removing an
    /// absent key succeeds and changes nothing; on failure nothing was
    /// written.
    #[verifier::external_body]
    pub(crate) fn raw_remove(&mut self, key: &[u8]) -> (r: Result<(), sled::Error>)
        ensures
            r is Ok ==> tree_contents(*final (self)) == tree_contents(*old(self)).remove(key@),
            r is Err ==> tree_contents(*final (self)) == tree_contents(*old(self)),
    {
        match self.inner.remove(key) {
            Ok(_) => Ok(()),
            Err(e) => Err(e),
        }
    }
}

} // verus!
