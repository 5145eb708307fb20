//! Transactional contexts and the coordinator's trusted core.
//!
//! A closure passed to [`crate::Tree::transaction`] (or the two-tree
//! variant) receives one [`TransactionalTreeWrapper`] per participating
//! tree: a scoped view of that tree, valid only for the duration of the
//! call, through which every read and write is staged against one atomic
//! unit. The wrapper is threaded by value so that its pending contents
//! follow it through the closure.
//!
//! The engine may detect a conflicting concurrent writer and retry the
//! closure, so a closure must be free of observable effects beyond the
//! calls made through its contexts. A context operation never retries by
//! itself: it reports [`TxError::Conflict`] and only the coordinator
//! retries.

use crate::codec;
use crate::codec::CodecError;
use crate::codec::Value;
use crate::codec::ValueModel;
use crate::engine::tree_contents;
use crate::engine::EngineTree;
use sled::transaction::ConflictableTransactionError;
use sled::transaction::TransactionError;
use sled::transaction::TransactionalTree;
use sled::transaction::UnabortableTransactionError;
use sled::Transactional;
use crate::trees::opt_model;
use crate::trees::spec_lookup;
use crate::Tree;
use vstd::prelude::*;

verus! {

/// Everything a transactional call can report.
#[derive(Debug)]
pub enum TxError<E> {
    /// The closure chose to abort: the whole atomic unit rolled back
    /// and the application's own error is handed through.
    Abort(E),
    /// The engine detected a conflicting concurrent writer. Only
    /// context operations report this; the coordinator retries the
    /// closure, so a finished transaction never carries it.
    Conflict,
    /// The storage engine failed.
    Engine(sled::Error),
    /// Stored bytes read inside the transaction did not decode; the
    /// atomic unit rolled back.
    Codec(CodecError),
    /// A multi-tree transaction named an unsupported number of trees;
    /// the engine was never touched.
    Capacity,
}

/// A scoped view of one tree inside one in-flight atomic unit, held
/// opaquely: the verifier sees its pending contents only through
/// `tx_view` and the trusted wrappers. It is deliberately not clonable:
/// threading it by value keeps its pending contents tied to it.
#[verifier::external_body]
pub struct TransactionalTreeWrapper {
    tx: TransactionalTree,
}

/// The pending contents seen through one transactional context: the
/// tree's contents at the start of the attempt, overlaid with the
/// transaction's own staged writes so far.
pub uninterp spec fn tx_view(w: TransactionalTreeWrapper) -> Map<Seq<u8>, Seq<u8>>;

impl TransactionalTreeWrapper {
    /// The pending contents this context sees.
    pub open spec fn contents(&self) -> Map<Seq<u8>, Seq<u8>> {
        tx_view(*self)
    }

    /// Relies on sled TransactionalTree::get: a read through the
    /// transaction's staged writes (a transaction reads its own
    /// writes).
    #[verifier::external_body]
    fn raw_tx_get<E>(&self, key: &[u8]) -> (r: Result<Option<Vec<u8>>, TxError<E>>)
        ensures
            r matches Ok(o) ==> match o {
                Some(v) => tx_view(*self).contains_key(key@) && v@ == tx_view(*self)[key@],
                None => !tx_view(*self).contains_key(key@),
            },
            r matches Err(e) ==> e is Conflict || e is Engine,
    {
        match self.tx.get(key) {
            Ok(Some(iv)) => Ok(Some(iv.to_vec())),
            Ok(None) => Ok(None),
            Err(UnabortableTransactionError::Conflict) => Err(TxError::Conflict),
            Err(UnabortableTransactionError::Storage(e)) => Err(
                TxError::Engine(e),
            ),
        }
    }

    /// Relies on sled TransactionalTree::insert: stages a write of the
    /// bytes under the key; on failure nothing was staged.
    #[verifier::external_body]
    fn raw_tx_insert<E>(self, key: &[u8], value: &[u8]) -> (r: (Self, Result<(), TxError<E>>))
        ensures
            r.1 is Ok ==> tx_view(r.0) == tx_view(self).insert(key@, value@),
            r.1 matches Err(e) ==> tx_view(r.0) == tx_view(self) && (e is Conflict
                || e is Engine),
    {
        match self.tx.insert(key, value) {
            Ok(_) => (self, Ok(())),
            Err(UnabortableTransactionError::Conflict) => (
                self,
                Err(TxError::Conflict),
            ),
            Err(UnabortableTransactionError::Storage(e)) => (
                self,
                Err(TxError::Engine(e)),
            ),
        }
    }

    /// Relies on sled TransactionalTree::remove: stages a removal of
    /// the key; on failure nothing was staged.
    #[verifier::external_body]
    fn raw_tx_remove<E>(self, key: &[u8]) -> (r: (Self, Result<(), TxError<E>>))
        ensures
            r.1 is Ok ==> tx_view(r.0) == tx_view(self).remove(key@),
            r.1 matches Err(e) ==> tx_view(r.0) == tx_view(self) && (e is Conflict
                || e is Engine),
    {
        match self.tx.remove(key) {
            Ok(_) => (self, Ok(())),
            Err(UnabortableTransactionError::Conflict) => (
                self,
                Err(TxError::Conflict),
            ),
            Err(UnabortableTransactionError::Storage(e)) => (
                self,
                Err(TxError::Engine(e)),
            ),
        }
    }

    /// Stages `value` under `key` within the transaction, overwriting
    /// any pending or stored value for that key.
    pub fn insert<E>(self, key: &[u8], value: &Value) -> (r: (Self, Result<(), TxError<E>>))
        ensures
            r.1 is Ok ==> r.0.contents() == self.contents().insert(
                key@,
                codec::spec_encode(value@),
            ),
            r.1 matches Err(e) ==> r.0.contents() == self.contents() && (e is Conflict
                || e is Engine),
    {
        let bytes = codec::encode(value);
        self.raw_tx_insert(key, bytes.as_slice())
    }

    /// Reads the value pending under `key` in this transaction. An
    /// absent key is `Ok(None)`; pending bytes that do not decode
    /// surface as a codec error.
    pub fn get<E>(&self, key: &[u8]) -> (r: Result<Option<Value>, TxError<E>>)
        ensures
            r matches Ok(o) ==> spec_lookup(self.contents(), key@) == Ok::<_, CodecError>(
                opt_model(o),
            ),
            r matches Err(e) ==> match e {
                TxError::Codec(ce) => spec_lookup(self.contents(), key@) == Err::<
                    Option<ValueModel>,
                    _,
                >(ce),
                TxError::Conflict => true,
                TxError::Engine(_) => true,
                _ => false,
            },
    {
        match self.raw_tx_get(key) {
            Ok(Some(bytes)) => match codec::decode(bytes.as_slice()) {
                Ok(v) => Ok(Some(v)),
                Err(ce) => Err(TxError::Codec(ce)),
            },
            Ok(None) => Ok(None),
            Err(e) => Err(e),
        }
    }

    /// Stages a removal of `key`; removing an absent key succeeds.
    pub fn remove<E>(self, key: &[u8]) -> (r: (Self, Result<(), TxError<E>>))
        ensures
            r.1 is Ok ==> r.0.contents() == self.contents().remove(key@),
            r.1 matches Err(e) ==> r.0.contents() == self.contents() && (e is Conflict
                || e is Engine),
    {
        self.raw_tx_remove(key)
    }
}

/// Relies on sled::Tree::transaction: runs the closure against a
/// transactional view of the tree, retrying it when the engine detects
/// a conflicting concurrent writer; on success every staged write is
/// committed as one atomic unit, and on abort the unit rolls back
/// entirely, leaving the tree as it was.
#[verifier::external_body]
pub(crate) fn engine_transaction<F, T, E>(tree: &mut EngineTree, f: &F) -> (r: Result<
    T,
    TxError<E>,
>) where F: Fn(TransactionalTreeWrapper) -> (TransactionalTreeWrapper, Result<T, TxError<E>>)
    requires
        forall|w: TransactionalTreeWrapper| f.requires((w,)),
    ensures
        r matches Err(e) ==> match e {
            TxError::Abort(_) | TxError::Codec(_) | TxError::Capacity => {
                &&& tree_contents(*final (tree)) == tree_contents(*old(tree))
                &&& exists|w0: TransactionalTreeWrapper, w1: TransactionalTreeWrapper|
                    {
                        &&& w0.contents() == tree_contents(*old(tree))
                        &&& #[trigger] f.ensures((w0,), (w1, r))
                    }
            },
            TxError::Conflict => false,
            TxError::Engine(_) => true,
        },
        r matches Ok(t) ==> exists|w0: TransactionalTreeWrapper, w1: TransactionalTreeWrapper|
            {
                &&& w0.contents() == tree_contents(*old(tree))
                &&& #[trigger] f.ensures((w0,), (w1, Ok(t)))
                &&& tree_contents(*final (tree)) == w1.contents()
            },
{
    let res = tree.inner.transaction(|tx| {
        let w = TransactionalTreeWrapper { tx: tx.clone() };
        match f(w).1 {
            Ok(t) => Ok(t),
            Err(TxError::Conflict) => Err(ConflictableTransactionError::Conflict),
            Err(TxError::Engine(e)) => Err(ConflictableTransactionError::Storage(e)),
            Err(e) => Err(ConflictableTransactionError::Abort(e)),
        }
    });
    match res {
        Ok(t) => Ok(t),
        Err(TransactionError::Abort(te)) => Err(te),
        Err(TransactionError::Storage(e)) => Err(TxError::Engine(e)),
    }
}

/// Relies on sled::Tree::transaction, on a single tree, with the
/// closure shape of the multi-tree coordinator: one context in a
/// one-element sequence; same retry, commit and rollback behaviour as
/// `engine_transaction`.
#[verifier::external_body]
pub(crate) fn engine_multi_1<F, T, E>(trees: &mut Vec<Tree>, f: &F) -> (r: Result<
    T,
    TxError<E>,
>) where F: Fn(Vec<TransactionalTreeWrapper>) -> (
    Vec<TransactionalTreeWrapper>,
    Result<T, TxError<E>>,
)
    requires
        old(trees)@.len() == 1,
        forall|ws: Vec<TransactionalTreeWrapper>| ws@.len() == 1 ==> f.requires((ws,)),
    ensures
        final (trees)@.len() == 1,
        r matches Err(e) ==> match e {
            TxError::Abort(_) | TxError::Codec(_) | TxError::Capacity => {
                &&& tree_contents(final (trees)@[0].tree) == tree_contents(old(trees)@[0].tree)
                &&& exists|
                    ws0: Vec<TransactionalTreeWrapper>,
                    ws1: Vec<TransactionalTreeWrapper>,
                |
                    {
                        &&& ws0@.len() == 1
                        &&& ws0@[0].contents() == tree_contents(old(trees)@[0].tree)
                        &&& #[trigger] f.ensures((ws0,), (ws1, r))
                    }
            },
            TxError::Conflict => false,
            TxError::Engine(_) => true,
        },
        r matches Ok(t) ==> exists|
            ws0: Vec<TransactionalTreeWrapper>,
            ws1: Vec<TransactionalTreeWrapper>,
        |
            {
                &&& ws0@.len() == 1
                &&& ws0@[0].contents() == tree_contents(old(trees)@[0].tree)
                &&& #[trigger] f.ensures((ws0,), (ws1, Ok(t)))
            },
{
    let res = trees[0].tree.inner.transaction(|tx| {
        let w = TransactionalTreeWrapper { tx: tx.clone() };
        match f(vec![w]).1 {
            Ok(t) => Ok(t),
            Err(TxError::Conflict) => Err(ConflictableTransactionError::Conflict),
            Err(TxError::Engine(e)) => Err(ConflictableTransactionError::Storage(e)),
            Err(e) => Err(ConflictableTransactionError::Abort(e)),
        }
    });
    match res {
        Ok(t) => Ok(t),
        Err(TransactionError::Abort(te)) => Err(te),
        Err(TransactionError::Storage(e)) => Err(TxError::Engine(e)),
    }
}

/// Relies on sled's transaction over a pair of trees: both trees join
/// one atomic unit; all staged writes to both commit together, and on
/// abort both roll back entirely, leaving each tree as it was.
#[verifier::external_body]
pub(crate) fn engine_multi_2<F, T, E>(trees: &mut Vec<Tree>, f: &F) -> (r: Result<
    T,
    TxError<E>,
>) where F: Fn(Vec<TransactionalTreeWrapper>) -> (
    Vec<TransactionalTreeWrapper>,
    Result<T, TxError<E>>,
)
    requires
        old(trees)@.len() == 2,
        forall|ws: Vec<TransactionalTreeWrapper>| ws@.len() == 2 ==> f.requires((ws,)),
    ensures
        final (trees)@.len() == 2,
        r matches Err(e) ==> match e {
            TxError::Abort(_) | TxError::Codec(_) | TxError::Capacity => {
                &&& forall|i: int|
                    0 <= i < 2 ==> tree_contents(#[trigger] final (trees)@[i].tree)
                        == tree_contents(old(trees)@[i].tree)
                &&& exists|
                    ws0: Vec<TransactionalTreeWrapper>,
                    ws1: Vec<TransactionalTreeWrapper>,
                |
                    {
                        &&& ws0@.len() == 2
                        &&& ws0@[0].contents() == tree_contents(old(trees)@[0].tree)
                        &&& ws0@[1].contents() == tree_contents(old(trees)@[1].tree)
                        &&& #[trigger] f.ensures((ws0,), (ws1, r))
                    }
            },
            TxError::Conflict => false,
            TxError::Engine(_) => true,
        },
        r matches Ok(t) ==> exists|
            ws0: Vec<TransactionalTreeWrapper>,
            ws1: Vec<TransactionalTreeWrapper>,
        |
            {
                &&& ws0@.len() == 2
                &&& ws0@[0].contents() == tree_contents(old(trees)@[0].tree)
                &&& ws0@[1].contents() == tree_contents(old(trees)@[1].tree)
                &&& #[trigger] f.ensures((ws0,), (ws1, Ok(t)))
            },
{
    let res = (&trees[0].tree.inner, &trees[1].tree.inner).transaction(|txs| {
        let w0 = TransactionalTreeWrapper { tx: txs.0.clone() };
        let w1 = TransactionalTreeWrapper { tx: txs.1.clone() };
        match f(vec![w0, w1]).1 {
            Ok(t) => Ok(t),
            Err(TxError::Conflict) => Err(ConflictableTransactionError::Conflict),
            Err(TxError::Engine(e)) => Err(ConflictableTransactionError::Storage(e)),
            Err(e) => Err(ConflictableTransactionError::Abort(e)),
        }
    });
    match res {
        Ok(t) => Ok(t),
        Err(TransactionError::Abort(te)) => Err(te),
        Err(TransactionError::Storage(e)) => Err(TxError::Engine(e)),
    }
}

} // verus!
