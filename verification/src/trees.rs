//! Typed reads, writes and scans over one tree.
//!
//! Every operation's contract is stated over the tree's mathematical
//! contents (a map from key bytes to value bytes, see
//! [`crate::engine::tree_contents`]) and the fixed value codec
//! ([`crate::codec`]).

use crate::codec;
use crate::codec::CodecError;
use crate::codec::Value;
use crate::codec::ValueModel;
use crate::engine;
use crate::tx::TransactionalTreeWrapper;
use crate::tx::TxError;
use crate::Tree;
use vstd::prelude::*;

verus! {

/// Everything that can go wrong in a non-transactional operation. A
/// missing key is not an error: reads return `Ok(None)` for it.
#[derive(Debug)]
pub enum StoreError {
    /// The storage engine failed (I/O, corruption of the store itself).
    Engine(sled::Error),
    /// Stored bytes under a key did not decode as a value.
    Codec(CodecError),
}

/// What a typed read of key `k` in contents `m` must yield: absence is
/// `Ok(None)`, stored bytes that decode give the value, stored bytes
/// that do not decode are a caller-visible defect.
pub open spec fn spec_lookup(m: Map<Seq<u8>, Seq<u8>>, k: Seq<u8>) -> Result<
    Option<ValueModel>,
    CodecError,
> {
    if m.contains_key(k) {
        match codec::spec_decode(m[k]) {
            Ok(v) => Ok(Some(v)),
            Err(e) => Err(e),
        }
    } else {
        Ok(None)
    }
}

/// The model of an optional typed value.
pub open spec fn opt_model(o: Option<Value>) -> Option<ValueModel> {
    match o {
        Some(v) => Some(v@),
        None => None,
    }
}

impl Tree {
    /// The tree's contents: what is stored under each key.
    pub closed spec fn contents(&self) -> Map<Seq<u8>, Seq<u8>> {
        engine::tree_contents(self.tree)
    }

    /// Wraps an engine tree handle and the connection it came from.
    pub(crate) fn from_parts(conn: crate::Connection, tree: engine::EngineTree) -> (r: Tree)
        ensures
            r.contents() == engine::tree_contents(tree),
    {
        Tree { conn, tree }
    }

    /// Stores `value` under `key`, unconditionally overwriting any
    /// previous value. Fails only when the engine does.
    pub fn insert(&mut self, key: &[u8], value: &Value) -> (r: Result<(), StoreError>)
        ensures
            r is Ok ==> final (self).contents() == old(self).contents().insert(
                key@,
                codec::spec_encode(value@),
            ),
            r matches Err(e) ==> final (self).contents() == old(self).contents() && e is Engine,
    {
        let bytes = codec::encode(value);
        match self.tree.raw_insert(key, bytes.as_slice()) {
            Ok(()) => Ok(()),
            Err(e) => Err(StoreError::Engine(e)),
        }
    }

    /// Reads the value stored under `key`. An absent key is `Ok(None)`,
    /// never an error; stored bytes that do not decode surface as a
    /// codec error, never as a silently wrong value.
    pub fn get(&self, key: &[u8]) -> (r: Result<Option<Value>, StoreError>)
        ensures
            r matches Ok(o) ==> spec_lookup(self.contents(), key@) == Ok::<_, CodecError>(
                opt_model(o),
            ),
            r matches Err(e) ==> match e {
                StoreError::Codec(ce) => spec_lookup(self.contents(), key@) == Err::<
                    Option<ValueModel>,
                    _,
                >(ce),
                StoreError::Engine(_) => true,
            },
    {
        match self.tree.raw_get(key) {
            Ok(Some(bytes)) => match codec::decode(bytes.as_slice()) {
                Ok(v) => Ok(Some(v)),
                Err(ce) => Err(StoreError::Codec(ce)),
            },
            Ok(None) => Ok(None),
            Err(e) => Err(StoreError::Engine(e)),
        }
    }

    /// Semantically identical to [`Tree::insert`]: a whole-value
    /// overwrite, not a partial update.
    pub fn update(&mut self, key: &[u8], value: &Value) -> (r: Result<(), StoreError>)
        ensures
            r is Ok ==> final (self).contents() == old(self).contents().insert(
                key@,
                codec::spec_encode(value@),
            ),
            r matches Err(e) ==> final (self).contents() == old(self).contents() && e is Engine,
    {
        self.insert(key, value)
    }

    /// Removes `key`. Deleting an absent key succeeds: delete is
    /// idempotent. Fails only when the engine does.
    pub fn delete(&mut self, key: &[u8]) -> (r: Result<(), StoreError>)
        ensures
            r is Ok ==> final (self).contents() == old(self).contents().remove(key@),
            r matches Err(e) ==> final (self).contents() == old(self).contents() && e is Engine,
    {
        match self.tree.raw_remove(key) {
            Ok(()) => Ok(()),
            Err(e) => Err(StoreError::Engine(e)),
        }
    }

    /// Decodes every stored value, in ascending key order. A single
    /// stored value that does not decode fails the whole scan with a
    /// codec error; it is never skipped.
    pub fn all(&self) -> (r: Result<Vec<Value>, StoreError>)
        ensures
            r matches Ok(vs) ==> exists|pairs: Seq<(Seq<u8>, Seq<u8>)>|
                #[trigger] engine::scan_of(pairs, self.contents()) && decodes_to(
                    pairs,
                    models_of(vs@),
                ),
            r matches Ok(vs) ==> self.contents().dom().finite() && vs@.len()
                == self.contents().dom().len(),
            r matches Err(e) ==> match e {
                StoreError::Codec(_) => exists|k: Seq<u8>|
                    #[trigger] self.contents().dom().contains(k) && codec::spec_decode(
                        self.contents()[k],
                    ) is Err,
                StoreError::Engine(_) => true,
            },
    {
        let pairs = match self.tree.raw_scan() {
            Ok(p) => p,
            Err(e) => return Err(StoreError::Engine(e)),
        };
        let ghost gpairs = engine::pairs_view(pairs@);
        let mut vs: Vec<Value> = Vec::new();
        let mut i: usize = 0;
        while i < pairs.len()
            invariant
                i <= pairs@.len(),
                gpairs == engine::pairs_view(pairs@),
                engine::scan_of(gpairs, self.contents()),
                vs@.len() == i,
                forall|j: int|
                    0 <= j < i ==> codec::spec_decode(gpairs[j].1) == Ok::<_, CodecError>(
                        vs@[j]@,
                    ),
            decreases pairs@.len() - i,
        {
            let pair = &pairs[i];
            match codec::decode(pair.1.as_slice()) {
                Ok(v) => {
                    vs.push(v);
                },
                Err(ce) => {
                    proof {
                        assert(self.contents().contains_pair(gpairs[i as int].0, gpairs[
                            i as int].1));
                        assert(self.contents().dom().contains(gpairs[i as int].0));
                    }
                    return Err(StoreError::Codec(ce));
                },
            }
            i = i + 1;
        }
        proof {
            assert(decodes_to(gpairs, models_of(vs@)));
            lemma_scan_len(gpairs, self.contents());
        }
        Ok(vs)
    }

    /// Scans every stored value in ascending key order and returns
    /// exactly those the predicate accepts. An empty result is not an
    /// error; a stored value that does not decode fails the whole scan.
    pub fn find<F: Fn(&Value) -> bool>(&self, p: F) -> (r: Result<Vec<Value>, StoreError>)
        requires
            forall|v: &Value| #[trigger] p.requires((v,)),
        ensures
            r matches Ok(vs) ==> exists|
                pairs: Seq<(Seq<u8>, Seq<u8>)>,
                all_vs: Seq<Value>,
                flags: Seq<bool>,
            |
                #![trigger engine::scan_of(pairs, self.contents()), filter_by(all_vs, flags)]
                {
                    &&& engine::scan_of(pairs, self.contents())
                    &&& decodes_to(pairs, models_of(all_vs))
                    &&& flags.len() == all_vs.len()
                    &&& (forall|i: int|
                        0 <= i < all_vs.len() ==> p.ensures((&all_vs[i],), #[trigger] flags[i]))
                    &&& vs@ == filter_by(all_vs, flags)
                },
            r matches Err(e) ==> match e {
                StoreError::Codec(_) => exists|k: Seq<u8>|
                    #[trigger] self.contents().dom().contains(k) && codec::spec_decode(
                        self.contents()[k],
                    ) is Err,
                StoreError::Engine(_) => true,
            },
    {
        let pairs = match self.tree.raw_scan() {
            Ok(p) => p,
            Err(e) => return Err(StoreError::Engine(e)),
        };
        let ghost gpairs = engine::pairs_view(pairs@);
        let mut out: Vec<Value> = Vec::new();
        let ghost mut all_vs = Seq::<Value>::empty();
        let ghost mut flags = Seq::<bool>::empty();
        let mut i: usize = 0;
        while i < pairs.len()
            invariant
                forall|v: &Value| #[trigger] p.requires((v,)),
                i <= pairs@.len(),
                gpairs == engine::pairs_view(pairs@),
                engine::scan_of(gpairs, self.contents()),
                all_vs.len() == i,
                flags.len() == i,
                forall|j: int|
                    0 <= j < i ==> codec::spec_decode(gpairs[j].1) == Ok::<_, CodecError>(
                        all_vs[j]@,
                    ),
                forall|j: int| 0 <= j < i ==> p.ensures((&all_vs[j],), #[trigger] flags[j]),
                out@ == filter_by(all_vs, flags),
            decreases pairs@.len() - i,
        {
            let pair = &pairs[i];
            match codec::decode(pair.1.as_slice()) {
                Ok(v) => {
                    let keep = p(&v);
                    proof {
                        let prev_vs = all_vs;
                        let prev_flags = flags;
                        all_vs = all_vs.push(v);
                        flags = flags.push(keep);
                        assert(all_vs.drop_last() =~= prev_vs);
                        assert(flags.drop_last() =~= prev_flags);
                    }
                    if keep {
                        out.push(v);
                    }
                },
                Err(ce) => {
                    proof {
                        assert(self.contents().contains_pair(gpairs[i as int].0, gpairs[
                            i as int].1));
                        assert(self.contents().dom().contains(gpairs[i as int].0));
                    }
                    return Err(StoreError::Codec(ce));
                },
            }
            i = i + 1;
        }
        Ok(out)
    }

    /// Runs `f` atomically against this tree. `f` receives a scoped
    /// transactional context and must hand it back beside its result;
    /// the engine may run `f` several times under conflict, so `f` must
    /// have no observable effect besides the calls made through the
    /// context. On success every staged write commits as one atomic
    /// unit; an abort (the closure's own error, or a decode failure
    /// inside the transaction) rolls the unit back entirely, leaving
    /// the tree exactly as it was.
    pub fn transaction<F, T, E>(&mut self, f: F) -> (r: Result<T, TxError<E>>) where
        F: Fn(TransactionalTreeWrapper) -> (TransactionalTreeWrapper, Result<T, TxError<E>>)

        requires
            forall|w: TransactionalTreeWrapper| f.requires((w,)),
        ensures
            r matches Err(e) ==> match e {
                TxError::Abort(_) | TxError::Codec(_) | TxError::Capacity => {
                    &&& final (self).contents() == old(self).contents()
                    &&& exists|w0: TransactionalTreeWrapper, w1: TransactionalTreeWrapper|
                        {
                            &&& w0.contents() == old(self).contents()
                            &&& #[trigger] f.ensures((w0,), (w1, r))
                        }
                },
                TxError::Conflict => false,
                TxError::Engine(_) => true,
            },
            r matches Ok(t) ==> exists|
                w0: TransactionalTreeWrapper,
                w1: TransactionalTreeWrapper,
            |
                {
                    &&& w0.contents() == old(self).contents()
                    &&& #[trigger] f.ensures((w0,), (w1, Ok(t)))
                    &&& final (self).contents() == w1.contents()
                },
    {
        crate::tx::engine_transaction(&mut self.tree, &f)
    }

    /// Runs `f` atomically against one or two trees at once: all the
    /// writes staged through all the contexts commit together, or none
    /// do. `f` receives one context per tree, in the order the trees
    /// were given, and must hand the contexts back beside its result.
    /// Asking for any other number of trees fails at once with
    /// `Capacity`, before the engine is touched.
    pub fn multi_tree_transaction<F, T, E>(trees: &mut Vec<Tree>, f: F) -> (r: Result<
        T,
        TxError<E>,
    >) where
        F: Fn(Vec<TransactionalTreeWrapper>) -> (
            Vec<TransactionalTreeWrapper>,
            Result<T, TxError<E>>,
        )

        requires
            forall|ws: Vec<TransactionalTreeWrapper>|
                ws@.len() == old(trees)@.len() ==> f.requires((ws,)),
        ensures
            final (trees)@.len() == old(trees)@.len(),
            !(1 <= old(trees)@.len() <= 2) ==> (r matches Err(e) && e is Capacity),
            r matches Err(e) ==> match e {
                TxError::Abort(_) | TxError::Codec(_) | TxError::Capacity => {
                    &&& forall|i: int|
                        0 <= i < old(trees)@.len() ==> (#[trigger] final (trees)@[i]).contents()
                            == old(trees)@[i].contents()
                    &&& 1 <= old(trees)@.len() <= 2 ==> exists|
                        ws0: Vec<TransactionalTreeWrapper>,
                        ws1: Vec<TransactionalTreeWrapper>,
                    |
                        {
                            &&& ws0@.len() == old(trees)@.len()
                            &&& forall|i: int|
                                0 <= i < ws0@.len() ==> (#[trigger] ws0@[i]).contents() == old(
                                    trees,
                                )@[i].contents()
                            &&& f.ensures((ws0,), (ws1, r))
                        }
                },
                TxError::Conflict => false,
                TxError::Engine(_) => true,
            },
            r matches Ok(t) ==> exists|
                ws0: Vec<TransactionalTreeWrapper>,
                ws1: Vec<TransactionalTreeWrapper>,
            |
                {
                    &&& ws0@.len() == old(trees)@.len()
                    &&& forall|i: int|
                        0 <= i < ws0@.len() ==> (#[trigger] ws0@[i]).contents() == old(
                            trees,
                        )@[i].contents()
                    &&& f.ensures((ws0,), (ws1, Ok(t)))
                },
    {
        let n = trees.len();
        if n == 1 {
            crate::tx::engine_multi_1(trees, &f)
        } else if n == 2 {
            crate::tx::engine_multi_2(trees, &f)
        } else {
            Err(TxError::Capacity)
        }
    }

    /// Stores raw bytes under `key` exactly as given, bypassing the
    /// codec. A typed read of the key then decodes those very bytes;
    /// bytes that are not a valid encoding are later reported as a
    /// codec error.
    pub fn insert_raw(&mut self, key: &[u8], value: &[u8]) -> (r: Result<(), StoreError>)
        ensures
            r is Ok ==> final (self).contents() == old(self).contents().insert(key@, value@),
            r matches Err(e) ==> final (self).contents() == old(self).contents() && e is Engine,
    {
        match self.tree.raw_insert(key, value) {
            Ok(()) => Ok(()),
            Err(e) => Err(StoreError::Engine(e)),
        }
    }
}

/// The models of a sequence of typed values.
pub open spec fn models_of(vs: Seq<Value>) -> Seq<ValueModel> {
    vs.map_values(|v: Value| v@)
}

/// Pairs decode, in order, to exactly the given models.
pub open spec fn decodes_to(pairs: Seq<(Seq<u8>, Seq<u8>)>, ms: Seq<ValueModel>) -> bool {
    &&& pairs.len() == ms.len()
    &&& forall|i: int|
        0 <= i < pairs.len() ==> codec::spec_decode(pairs[i].1) == Ok::<_, CodecError>(ms[i])
}

/// The subsequence of `s` at the positions whose flag is set.
pub open spec fn filter_by<T>(s: Seq<T>, flags: Seq<bool>) -> Seq<T>
    decreases s.len(),
{
    if s.len() == 0 || flags.len() == 0 {
        Seq::empty()
    } else {
        let rest = filter_by(s.drop_last(), flags.drop_last());
        if flags.last() {
            rest.push(s.last())
        } else {
            rest
        }
    }
}

/// The strict key order is irreflexive: no key precedes itself.
pub proof fn lemma_lex_lt_irrefl(a: Seq<u8>)
    ensures
        !engine::lex_lt(a, a),
    decreases a.len(),
{
    if a.len() > 0 {
        lemma_lex_lt_irrefl(a.skip(1));
    }
}

/// Law: one scan lists every stored pair exactly once, so its length is
/// exactly the number of stored keys (and that number is finite).
pub proof fn lemma_scan_len(pairs: Seq<(Seq<u8>, Seq<u8>)>, m: Map<Seq<u8>, Seq<u8>>)
    requires
        engine::scan_of(pairs, m),
    ensures
        m.dom().finite(),
        pairs.len() == m.dom().len(),
{
    broadcast use vstd::seq_lib::seq_to_set_is_finite;

    let ks = pairs.map_values(|p: (Seq<u8>, Seq<u8>)| p.0);
    assert forall|i: int, j: int|
        0 <= i < ks.len() && 0 <= j < ks.len() && i != j implies ks[i] != ks[j] by {
        if i < j {
            assert(engine::lex_lt(pairs[i].0, pairs[j].0));
        } else {
            assert(engine::lex_lt(pairs[j].0, pairs[i].0));
        }
        if ks[i] == ks[j] {
            lemma_lex_lt_irrefl(pairs[i].0);
        }
    }
    assert(ks.no_duplicates());
    ks.unique_seq_to_set();
    assert forall|k: Seq<u8>| m.dom().contains(k) implies ks.to_set().contains(k) by {
        let i = choose|i: int| 0 <= i < pairs.len() && (#[trigger] pairs[i]).0 == k;
        assert(ks[i] == k);
    }
    assert forall|k: Seq<u8>| ks.to_set().contains(k) implies m.dom().contains(k) by {
        let i = choose|i: int| 0 <= i < ks.len() && ks[i] == k;
        assert(m.contains_pair(pairs[i].0, pairs[i].1));
    }
    assert(ks.to_set() =~= m.dom());
}

/// Law: a successful full scan returns exactly one decoded value per
/// stored key.
pub proof fn lemma_all_len(
    pairs: Seq<(Seq<u8>, Seq<u8>)>,
    m: Map<Seq<u8>, Seq<u8>>,
    ms: Seq<ValueModel>,
)
    requires
        engine::scan_of(pairs, m),
        decodes_to(pairs, ms),
    ensures
        ms.len() == m.dom().len(),
{
    lemma_scan_len(pairs, m);
}

/// Law: when the flags agree pointwise with a predicate, filtering by
/// the flags is exactly filtering by the predicate.
pub proof fn lemma_find_exact(all_vs: Seq<Value>, flags: Seq<bool>, q: spec_fn(Value) -> bool)
    requires
        flags.len() == all_vs.len(),
        forall|i: int| 0 <= i < all_vs.len() ==> flags[i] == q(all_vs[i]),
    ensures
        filter_by(all_vs, flags) == all_vs.filter(q),
    decreases all_vs.len(),
{
    reveal(Seq::filter);
    if all_vs.len() > 0 {
        assert(forall|i: int|
            0 <= i < all_vs.len() - 1 ==> flags.drop_last()[i] == q(all_vs.drop_last()[i]));
        lemma_find_exact(all_vs.drop_last(), flags.drop_last(), q);
        assert(flags.last() == q(all_vs.last()));
    }
}

/// Law: a second insert under the same key fully overwrites the first,
/// and a typed read of that key then sees exactly the second value.
pub proof fn lemma_insert_overwrites(
    m: Map<Seq<u8>, Seq<u8>>,
    k: Seq<u8>,
    v1: ValueModel,
    v2: ValueModel,
)
    requires
        codec::wf_model(v2),
    ensures
        m.insert(k, codec::spec_encode(v1)).insert(k, codec::spec_encode(v2)) == m.insert(
            k,
            codec::spec_encode(v2),
        ),
        spec_lookup(m.insert(k, codec::spec_encode(v2)), k) == Ok::<_, CodecError>(Some(v2)),
{
    codec::lemma_codec_round_trip(v2);
    assert(m.insert(k, codec::spec_encode(v1)).insert(k, codec::spec_encode(v2)) =~= m.insert(
        k,
        codec::spec_encode(v2),
    ));
}

/// Law: delete is idempotent - deleting twice is deleting once - and a
/// typed read of a deleted key is `Ok(None)`, not an error.
pub proof fn lemma_delete_idempotent(m: Map<Seq<u8>, Seq<u8>>, k: Seq<u8>)
    ensures
        m.remove(k).remove(k) == m.remove(k),
        spec_lookup(m.remove(k), k) == Ok::<Option<ValueModel>, CodecError>(None),
{
    assert(m.remove(k).remove(k) =~= m.remove(k));
}

/// Law: reading a key that is not stored yields `Ok(None)` - absence is
/// an explicit result, never an error.
pub proof fn lemma_absent_is_none(m: Map<Seq<u8>, Seq<u8>>, k: Seq<u8>)
    requires
        !m.contains_key(k),
    ensures
        spec_lookup(m, k) == Ok::<Option<ValueModel>, CodecError>(None),
{
}

/// Law: a typed read sees exactly what a typed write stored - the
/// round-trip law lifted to the store.
pub proof fn lemma_store_round_trip(m: Map<Seq<u8>, Seq<u8>>, k: Seq<u8>, v: ValueModel)
    requires
        codec::wf_model(v),
    ensures
        spec_lookup(m.insert(k, codec::spec_encode(v)), k) == Ok::<_, CodecError>(Some(v)),
{
    codec::lemma_codec_round_trip(v);
}

} // verus!
