use sled_orm::codec::decode;
use sled_orm::codec::encode;
use sled_orm::codec::CodecError;
use sled_orm::codec::Value;

#[test]
fn round_trip_bool() {
    for v in [Value::Bool(true), Value::Bool(false)] {
        let bytes = encode(&v);
        assert_eq!(decode(&bytes), Ok(v));
    }
}

#[test]
fn round_trip_u64() {
    for x in [0u64, 1, 25, 42, 0xdead_beef, u64::MAX] {
        let bytes = encode(&Value::U64(x));
        assert_eq!(decode(&bytes), Ok(Value::U64(x)));
    }
}

#[test]
fn round_trip_i64() {
    for x in [0i64, -1, 26, i64::MIN, i64::MAX] {
        let bytes = encode(&Value::I64(x));
        assert_eq!(decode(&bytes), Ok(Value::I64(x)));
    }
}

#[test]
fn round_trip_bytes() {
    for bs in [vec![], b"hello world".to_vec(), vec![0u8; 1000]] {
        let bytes = encode(&Value::Bytes(bs.clone()));
        assert_eq!(decode(&bytes), Ok(Value::Bytes(bs)));
    }
}

#[test]
fn round_trip_nested_pair() {
    let v = Value::Pair(
        Box::new(Value::Pair(
            Box::new(Value::Bytes(b"two".to_vec())),
            Box::new(Value::I64(-7)),
        )),
        Box::new(Value::Bool(true)),
    );
    let bytes = encode(&v);
    let expected = Value::Pair(
        Box::new(Value::Pair(
            Box::new(Value::Bytes(b"two".to_vec())),
            Box::new(Value::I64(-7)),
        )),
        Box::new(Value::Bool(true)),
    );
    assert_eq!(decode(&bytes), Ok(expected));
}

#[test]
fn encoding_layout_is_fixed_big_endian() {
    assert_eq!(encode(&Value::Bool(true)), vec![1u8, 1]);
    assert_eq!(encode(&Value::Bool(false)), vec![1u8, 0]);
    assert_eq!(encode(&Value::U64(42)), vec![2u8, 0, 0, 0, 0, 0, 0, 0, 42]);
    assert_eq!(
        encode(&Value::U64(0x0102030405060708)),
        vec![2u8, 1, 2, 3, 4, 5, 6, 7, 8]
    );
    assert_eq!(
        encode(&Value::I64(-1)),
        vec![3u8, 255, 255, 255, 255, 255, 255, 255, 255]
    );
    assert_eq!(
        encode(&Value::Bytes(vec![7, 9])),
        vec![4u8, 0, 0, 0, 0, 0, 0, 0, 2, 7, 9]
    );
    assert_eq!(
        encode(&Value::Pair(
            Box::new(Value::Bool(true)),
            Box::new(Value::U64(1))
        )),
        vec![5u8, 1, 1, 2, 0, 0, 0, 0, 0, 0, 0, 1]
    );
}

#[test]
fn equal_values_encode_identically() {
    let a = encode(&Value::Pair(
        Box::new(Value::U64(5)),
        Box::new(Value::Bytes(b"x".to_vec())),
    ));
    let b = encode(&Value::Pair(
        Box::new(Value::U64(5)),
        Box::new(Value::Bytes(b"x".to_vec())),
    ));
    assert_eq!(a, b);
}

#[test]
fn decode_rejects_truncated() {
    assert_eq!(decode(&[]), Err(CodecError::Truncated));
    assert_eq!(decode(&[1u8]), Err(CodecError::Truncated));
    assert_eq!(decode(&[2u8, 1, 2]), Err(CodecError::Truncated));
    // length prefix promises two bytes, only one follows
    assert_eq!(
        decode(&[4u8, 0, 0, 0, 0, 0, 0, 0, 2, 7]),
        Err(CodecError::Truncated)
    );
    // a pair whose second element is missing
    assert_eq!(decode(&[5u8, 1, 1]), Err(CodecError::Truncated));
}

#[test]
fn decode_rejects_unknown_tag() {
    assert_eq!(decode(&[9u8, 0, 0]), Err(CodecError::InvalidTag));
    assert_eq!(decode(&[0u8]), Err(CodecError::InvalidTag));
}

#[test]
fn decode_rejects_bad_bool_payload() {
    assert_eq!(decode(&[1u8, 2]), Err(CodecError::InvalidBool));
}

#[test]
fn decode_rejects_trailing_bytes() {
    assert_eq!(decode(&[1u8, 1, 0]), Err(CodecError::TrailingBytes));
    assert_eq!(
        decode(&[2u8, 0, 0, 0, 0, 0, 0, 0, 42, 0]),
        Err(CodecError::TrailingBytes)
    );
}
