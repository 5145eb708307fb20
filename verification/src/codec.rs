//! Fixed-layout binary encoding of stored values.
//!
//! Every value is encoded as one tag byte followed by a fixed-width,
//! big-endian payload; byte strings carry an 8-byte big-endian length
//! prefix. The layout is deterministic: equal values always produce
//! byte-identical encodings, so stored bytes can be compared as opaque
//! byte strings.

use vstd::prelude::*;

verus! {

/// A typed value that can be stored under a key.
#[derive(Debug, PartialEq, Eq)]
pub enum Value {
    Bool(bool),
    U64(u64),
    I64(i64),
    Bytes(Vec<u8>),
    Pair(Box<Value>, Box<Value>),
}

/// The mathematical model of a `Value`: byte strings become sequences.
pub enum ValueModel {
    Bool(bool),
    U64(u64),
    I64(i64),
    Bytes(Seq<u8>),
    Pair(Box<ValueModel>, Box<ValueModel>),
}

/// Why a byte string failed to decode.
#[derive(Debug, Clone, Copy, PartialEq, Eq, Structural)]
pub enum CodecError {
    /// The bytes end before the declared layout is complete.
    Truncated,
    /// The leading tag byte names no supported value shape.
    InvalidTag,
    /// A boolean payload byte is neither 0 nor 1.
    InvalidBool,
    /// Well-formed value followed by extra bytes.
    TrailingBytes,
}

pub open spec fn value_model(v: Value) -> ValueModel
    decreases v,
{
    match v {
        Value::Bool(b) => ValueModel::Bool(b),
        Value::U64(x) => ValueModel::U64(x),
        Value::I64(x) => ValueModel::I64(x),
        Value::Bytes(bs) => ValueModel::Bytes(bs@),
        Value::Pair(a, b) => ValueModel::Pair(
            Box::new(value_model(*a)),
            Box::new(value_model(*b)),
        ),
    }
}

impl View for Value {
    type V = ValueModel;

    open spec fn view(&self) -> ValueModel {
        value_model(*self)
    }
}

pub const TAG_BOOL: u8 = 1;

pub const TAG_U64: u8 = 2;

pub const TAG_I64: u8 = 3;

pub const TAG_BYTES: u8 = 4;

pub const TAG_PAIR: u8 = 5;

/// The eight big-endian bytes of a 64-bit integer, most significant first.
pub open spec fn u64_be_bytes(x: u64) -> Seq<u8> {
    seq![
        (x >> 56) as u8,
        (x >> 48) as u8,
        (x >> 40) as u8,
        (x >> 32) as u8,
        (x >> 24) as u8,
        (x >> 16) as u8,
        (x >> 8) as u8,
        x as u8,
    ]
}

/// The 64-bit integer read back from eight big-endian bytes.
pub open spec fn u64_from_be(
    b0: u8,
    b1: u8,
    b2: u8,
    b3: u8,
    b4: u8,
    b5: u8,
    b6: u8,
    b7: u8,
) -> u64 {
    ((b0 as u64) << 56) | ((b1 as u64) << 48) | ((b2 as u64) << 40) | ((b3 as u64) << 32) | ((
    b4 as u64) << 24) | ((b5 as u64) << 16) | ((b6 as u64) << 8) | (b7 as u64)
}

/// A model is encodable when every byte string in it has a length the
/// 8-byte length prefix can carry. Every value built from in-memory byte
/// vectors satisfies this.
pub open spec fn wf_model(m: ValueModel) -> bool
    decreases m,
{
    match m {
        ValueModel::Bytes(bs) => bs.len() <= u64::MAX,
        ValueModel::Pair(a, b) => wf_model(*a) && wf_model(*b),
        _ => true,
    }
}

/// The encoding of one value: a tag byte, then a fixed-layout payload.
pub open spec fn spec_encode(m: ValueModel) -> Seq<u8>
    decreases m,
{
    match m {
        ValueModel::Bool(b) => seq![TAG_BOOL, if b { 1u8 } else { 0u8 }],
        ValueModel::U64(x) => seq![TAG_U64] + u64_be_bytes(x),
        ValueModel::I64(x) => seq![TAG_I64] + u64_be_bytes(x as u64),
        ValueModel::Bytes(bs) => seq![TAG_BYTES] + u64_be_bytes(bs.len() as u64) + bs,
        ValueModel::Pair(a, b) => seq![TAG_PAIR] + spec_encode(*a) + spec_encode(*b),
    }
}

/// Decodes one value from the front of `s`, returning the model and how
/// many bytes of `s` it occupied. The range guard on the nested results
/// never fires (see `lemma_decode_prefix_len`); it is written out so the
/// recursion visibly terminates.
pub open spec fn spec_decode_prefix(s: Seq<u8>) -> Result<(ValueModel, int), CodecError>
    decreases s.len(),
{
    if s.len() < 1 {
        Err(CodecError::Truncated)
    } else if s[0] == TAG_BOOL {
        if s.len() < 2 {
            Err(CodecError::Truncated)
        } else if s[1] == 1 {
            Ok((ValueModel::Bool(true), 2))
        } else if s[1] == 0 {
            Ok((ValueModel::Bool(false), 2))
        } else {
            Err(CodecError::InvalidBool)
        }
    } else if s[0] == TAG_U64 {
        if s.len() < 9 {
            Err(CodecError::Truncated)
        } else {
            Ok((ValueModel::U64(u64_from_be(s[1], s[2], s[3], s[4], s[5], s[6], s[7], s[8])), 9))
        }
    } else if s[0] == TAG_I64 {
        if s.len() < 9 {
            Err(CodecError::Truncated)
        } else {
            Ok(
                (
                    ValueModel::I64(
                        u64_from_be(s[1], s[2], s[3], s[4], s[5], s[6], s[7], s[8]) as i64,
                    ),
                    9,
                ),
            )
        }
    } else if s[0] == TAG_BYTES {
        if s.len() < 9 {
            Err(CodecError::Truncated)
        } else {
            let n = u64_from_be(s[1], s[2], s[3], s[4], s[5], s[6], s[7], s[8]) as int;
            if s.len() < 9 + n {
                Err(CodecError::Truncated)
            } else {
                Ok((ValueModel::Bytes(s.subrange(9, 9 + n)), 9 + n))
            }
        }
    } else if s[0] == TAG_PAIR {
        match spec_decode_prefix(s.skip(1)) {
            Ok((a, na)) => if 0 < na && na <= s.len() - 1 {
                match spec_decode_prefix(s.skip(1 + na)) {
                    Ok((b, nb)) => Ok((ValueModel::Pair(Box::new(a), Box::new(b)), 1 + na + nb)),
                    Err(e) => Err(e),
                }
            } else {
                Err(CodecError::Truncated)
            },
            Err(e) => Err(e),
        }
    } else {
        Err(CodecError::InvalidTag)
    }
}

/// Decodes a complete byte string: one value, with nothing after it.
pub open spec fn spec_decode(s: Seq<u8>) -> Result<ValueModel, CodecError> {
    match spec_decode_prefix(s) {
        Ok((m, n)) => if n == s.len() {
            Ok(m)
        } else {
            Err(CodecError::TrailingBytes)
        },
        Err(e) => Err(e),
    }
}

/// A successful prefix decode consumes at least one byte and never more
/// than the whole input.
pub proof fn lemma_decode_prefix_len(s: Seq<u8>)
    ensures
        spec_decode_prefix(s) matches Ok(p) ==> 0 < p.1 <= s.len(),
    decreases s.len(),
{
    if s.len() >= 1 && s[0] == TAG_PAIR {
        lemma_decode_prefix_len(s.skip(1));
        let r = spec_decode_prefix(s.skip(1));
        if r is Ok {
            let na = r->Ok_0.1;
            if 0 < na && na <= s.len() - 1 {
                lemma_decode_prefix_len(s.skip(1 + na));
            }
        }
    }
}

/// Splitting a 64-bit integer into big-endian bytes and reassembling
/// them gives the integer back.
pub proof fn lemma_u64_be_round_trip(x: u64)
    by (bit_vector)
    ensures
        u64_from_be(
            (x >> 56) as u8,
            (x >> 48) as u8,
            (x >> 40) as u8,
            (x >> 32) as u8,
            (x >> 24) as u8,
            (x >> 16) as u8,
            (x >> 8) as u8,
            x as u8,
        ) == x,
{
}

/// Reinterpreting a signed 64-bit integer as unsigned and back is the
/// identity.
pub proof fn lemma_i64_cast_round_trip(x: i64)
    by (bit_vector)
    ensures
        ((x as u64) as i64) == x,
{
}

/// Law: decoding an encoded value from the front of any byte string
/// gives the value back and consumes exactly its encoding, whatever
/// follows it.
pub proof fn lemma_decode_encode_prefix(m: ValueModel, suffix: Seq<u8>)
    requires
        wf_model(m),
    ensures
        spec_decode_prefix(spec_encode(m) + suffix) == Ok::<_, CodecError>(
            (m, spec_encode(m).len() as int),
        ),
    decreases m,
{
    let s = spec_encode(m) + suffix;
    match m {
        ValueModel::Bool(b) => {
            assert(s[0] == TAG_BOOL);
            assert(s[1] == if b {
                1u8
            } else {
                0u8
            });
        },
        ValueModel::U64(x) => {
            assert(s[0] == TAG_U64);
            assert(forall|i: int| 1 <= i < 9 ==> s[i] == u64_be_bytes(x)[i - 1]);
            lemma_u64_be_round_trip(x);
        },
        ValueModel::I64(x) => {
            assert(s[0] == TAG_I64);
            assert(forall|i: int| 1 <= i < 9 ==> s[i] == u64_be_bytes(x as u64)[i - 1]);
            lemma_u64_be_round_trip(x as u64);
            lemma_i64_cast_round_trip(x);
        },
        ValueModel::Bytes(bs) => {
            assert(s[0] == TAG_BYTES);
            let lenb = u64_be_bytes(bs.len() as u64);
            assert(forall|i: int| 1 <= i < 9 ==> s[i] == lenb[i - 1]);
            lemma_u64_be_round_trip(bs.len() as u64);
            let n = (bs.len() as u64) as int;
            assert(n == bs.len());
            assert(s.subrange(9, 9 + n) =~= bs);
        },
        ValueModel::Pair(a, b) => {
            let ea = spec_encode(*a);
            let eb = spec_encode(*b);
            assert(s[0] == TAG_PAIR);
            assert(s.skip(1) =~= ea + (eb + suffix));
            lemma_decode_encode_prefix(*a, eb + suffix);
            let na = ea.len() as int;
            assert(spec_decode_prefix(s.skip(1)) == Ok::<_, CodecError>((*a, na)));
            lemma_decode_prefix_len(s.skip(1));
            assert(s.skip(1 + na) =~= eb + suffix);
            lemma_decode_encode_prefix(*b, suffix);
            let nb = eb.len() as int;
            assert(spec_decode_prefix(s.skip(1 + na)) == Ok::<_, CodecError>((*b, nb)));
            assert(spec_encode(m).len() == 1 + na + nb);
        },
    }
}

fn push_u64_be(out: &mut Vec<u8>, x: u64)
    ensures
        final(out)@ == old(out)@ + u64_be_bytes(x),
{
    out.push((x >> 56) as u8);
    out.push((x >> 48) as u8);
    out.push((x >> 40) as u8);
    out.push((x >> 32) as u8);
    out.push((x >> 24) as u8);
    out.push((x >> 16) as u8);
    out.push((x >> 8) as u8);
    out.push(x as u8);
    assert(out@ =~= old(out)@ + u64_be_bytes(x));
}

fn encode_into(out: &mut Vec<u8>, v: &Value)
    ensures
        final(out)@ == old(out)@ + spec_encode(v@),
    decreases *v,
{
    match v {
        Value::Bool(b) => {
            out.push(TAG_BOOL);
            out.push(
                if *b {
                    1u8
                } else {
                    0u8
                },
            );
            assert(out@ =~= old(out)@ + spec_encode(v@));
        },
        Value::U64(x) => {
            out.push(TAG_U64);
            push_u64_be(out, *x);
            assert(out@ =~= old(out)@ + spec_encode(v@));
        },
        Value::I64(x) => {
            out.push(TAG_I64);
            push_u64_be(out, *x as u64);
            assert(out@ =~= old(out)@ + spec_encode(v@));
        },
        Value::Bytes(bs) => {
            out.push(TAG_BYTES);
            push_u64_be(out, bs.len() as u64);
            let ghost mid = out@;
            let mut i: usize = 0;
            while i < bs.len()
                invariant
                    i <= bs@.len(),
                    out@ == mid + bs@.subrange(0, i as int),
                decreases bs@.len() - i,
            {
                out.push(bs[i]);
                assert(out@ =~= mid + bs@.subrange(0, i + 1));
                i = i + 1;
            }
            assert(bs@.subrange(0, bs@.len() as int) =~= bs@);
            assert(out@ =~= old(out)@ + spec_encode(v@));
        },
        Value::Pair(a, b) => {
            out.push(TAG_PAIR);
            encode_into(out, a);
            encode_into(out, b);
            assert(out@ =~= old(out)@ + spec_encode(v@));
        },
    }
}

/// Encodes a value to its fixed binary layout. Encoding never fails and
/// equal values always yield byte-identical encodings.
pub fn encode(v: &Value) -> (r: Vec<u8>)
    ensures
        r@ == spec_encode(v@),
{
    let mut out: Vec<u8> = Vec::new();
    encode_into(&mut out, v);
    out
}

fn read_u64_be(s: &[u8], pos: usize) -> (r: u64)
    requires
        pos + 8 <= s@.len(),
    ensures
        r == u64_from_be(
            s@[pos as int],
            s@[pos + 1],
            s@[pos + 2],
            s@[pos + 3],
            s@[pos + 4],
            s@[pos + 5],
            s@[pos + 6],
            s@[pos + 7],
        ),
{
    ((s[pos] as u64) << 56) | ((s[pos + 1] as u64) << 48) | ((s[pos + 2] as u64) << 40) | ((s[pos
        + 3] as u64) << 32) | ((s[pos + 4] as u64) << 24) | ((s[pos + 5] as u64) << 16) | ((s[pos
        + 6] as u64) << 8) | (s[pos + 7] as u64)
}

fn decode_prefix(s: &[u8], pos: usize) -> (r: Result<(Value, usize), CodecError>)
    requires
        pos <= s@.len(),
    ensures
        (r matches Ok(p) ==> spec_decode_prefix(s@.skip(pos as int)) == Ok::<_, CodecError>(
            (p.0@, p.1 - pos),
        ) && pos < p.1 <= s@.len()),
        (r matches Err(e) ==> spec_decode_prefix(s@.skip(pos as int)) == Err::<
            (ValueModel, int),
            _,
        >(e)),
    decreases s@.len() - pos,
{
    let ghost t = s@.skip(pos as int);
    assert(forall|i: int| 0 <= i < t.len() ==> t[i] == s@[pos + i]);
    if s.len() - pos < 1 {
        return Err(CodecError::Truncated);
    }
    let tag = s[pos];
    if tag == TAG_BOOL {
        if s.len() - pos < 2 {
            Err(CodecError::Truncated)
        } else {
            let b = s[pos + 1];
            if b == 1 {
                Ok((Value::Bool(true), pos + 2))
            } else if b == 0 {
                Ok((Value::Bool(false), pos + 2))
            } else {
                Err(CodecError::InvalidBool)
            }
        }
    } else if tag == TAG_U64 {
        if s.len() - pos < 9 {
            Err(CodecError::Truncated)
        } else {
            let x = read_u64_be(s, pos + 1);
            Ok((Value::U64(x), pos + 9))
        }
    } else if tag == TAG_I64 {
        if s.len() - pos < 9 {
            Err(CodecError::Truncated)
        } else {
            let x = read_u64_be(s, pos + 1);
            Ok((Value::I64(#[verifier::truncate] (x as i64)), pos + 9))
        }
    } else if tag == TAG_BYTES {
        if s.len() - pos < 9 {
            return Err(CodecError::Truncated);
        }
        let n = read_u64_be(s, pos + 1);
        let avail = s.len() - pos - 9;
        if n > avail as u64 {
            return Err(CodecError::Truncated);
        }
        let n = n as usize;
        let start = pos + 9;
        let mut bs: Vec<u8> = Vec::new();
        let mut i: usize = 0;
        while i < n
            invariant
                i <= n,
                start + n <= s@.len(),
                s@.len() <= usize::MAX,
                bs@ == s@.subrange(start as int, start + i),
            decreases n - i,
        {
            bs.push(s[start + i]);
            assert(bs@ =~= s@.subrange(start as int, start + i + 1));
            i = i + 1;
        }
        assert(t.subrange(9, 9 + n as int) =~= s@.subrange(start as int, start + n));
        Ok((Value::Bytes(bs), start + n))
    } else if tag == TAG_PAIR {
        let first = decode_prefix(s, pos + 1);
        match first {
            Ok((a, na)) => {
                let second = decode_prefix(s, na);
                proof {
                    assert(t.skip(1) =~= s@.skip(pos + 1));
                    assert(t.skip(1 + (na - (pos + 1))) =~= s@.skip(na as int));
                }
                match second {
                    Ok((b, nb)) => Ok((Value::Pair(Box::new(a), Box::new(b)), nb)),
                    Err(e) => Err(e),
                }
            },
            Err(e) => {
                proof {
                    assert(t.skip(1) =~= s@.skip(pos + 1));
                }
                Err(e)
            },
        }
    } else {
        Err(CodecError::InvalidTag)
    }
}

/// Decodes a complete byte string into the value it encodes.
///
/// The result is exact: it is `Ok(v)` when the bytes are precisely the
/// encoding of `v`, and otherwise the error that names what is wrong
/// with the bytes - never a panic, never a silently wrong value.
pub fn decode(s: &[u8]) -> (r: Result<Value, CodecError>)
    ensures
        (r matches Ok(v) ==> spec_decode(s@) == Ok::<_, CodecError>(v@)),
        (r matches Err(e) ==> spec_decode(s@) == Err::<ValueModel, _>(e)),
{
    proof {
        assert(s@.skip(0) =~= s@);
    }
    match decode_prefix(s, 0) {
        Ok((v, n)) => if n == s.len() {
            Ok(v)
        } else {
            Err(CodecError::TrailingBytes)
        },
        Err(e) => Err(e),
    }
}

/// Every value held in memory is well formed: its byte strings are
/// in-memory vectors, whose lengths the 8-byte length prefix can carry.
pub proof fn lemma_value_wf(v: &Value)
    ensures
        wf_model(v@),
    decreases *v,
{
    match v {
        Value::Bytes(bs) => {
            assert(bs.len() == bs@.len());
        },
        Value::Pair(a, b) => {
            lemma_value_wf(a);
            lemma_value_wf(b);
        },
        _ => {},
    }
}

/// Law: decoding an encoding gives the encoded value back exactly.
pub proof fn lemma_codec_round_trip(m: ValueModel)
    requires
        wf_model(m),
    ensures
        spec_decode(spec_encode(m)) == Ok::<_, CodecError>(m),
{
    lemma_decode_encode_prefix(m, Seq::empty());
    assert(spec_encode(m) + Seq::<u8>::empty() =~= spec_encode(m));
}

} // verus!
