use zkenc::codec::{decode, encode, PublicKey};
use zkenc::errors::ProtocolError;

#[test]
fn encode_simple_key() {
    let pk = PublicKey { n: vec![10, 11], e: vec![1] };
    assert_eq!(encode(&pk), "ab,1");
}

#[test]
fn round_trip_decode_of_encode() {
    let pk = PublicKey { n: vec![15, 5, 0, 12], e: vec![1, 0, 0, 0, 1] };
    let s = encode(&pk);
    assert_eq!(s, "f50c,10001");
    let back = decode(&s).unwrap();
    assert_eq!(back.n, pk.n);
    assert_eq!(back.e, pk.e);
}

#[test]
fn decode_simple() {
    let pk = decode("ab,10001").unwrap();
    assert_eq!(pk.n, vec![10, 11]);
    assert_eq!(pk.e, vec![1, 0, 0, 0, 1]);
}

#[test]
fn decode_is_case_insensitive_and_canonical() {
    let pk = decode("AB,CD").unwrap();
    assert_eq!(encode(&pk), "ab,cd");
}

#[test]
fn decode_trims_surrounding_whitespace() {
    let pk = decode(" \tab,cd\r\n").unwrap();
    assert_eq!(encode(&pk), "ab,cd");
}

#[test]
fn decode_strips_leading_zeros() {
    let pk = decode("00ff,010001").unwrap();
    assert_eq!(encode(&pk), "ff,10001");
}

#[test]
fn decode_keeps_zero_value() {
    let pk = decode("0,00").unwrap();
    assert_eq!(encode(&pk), "0,0");
}

#[test]
fn decode_rejects_missing_separator() {
    assert_eq!(decode("abcd"), Err(ProtocolError::MalformedInput));
    assert_eq!(decode(""), Err(ProtocolError::MalformedInput));
}

#[test]
fn decode_rejects_non_hex_characters() {
    assert_eq!(decode("ab,cg"), Err(ProtocolError::MalformedInput));
    assert_eq!(decode("zz,ff"), Err(ProtocolError::MalformedInput));
    assert_eq!(decode("ab, cd"), Err(ProtocolError::MalformedInput));
}

#[test]
fn decode_rejects_extra_fields() {
    assert_eq!(decode("ab,cd,ef"), Err(ProtocolError::MalformedInput));
    assert_eq!(decode("a,,b"), Err(ProtocolError::MalformedInput));
}

#[test]
fn decode_rejects_empty_fields() {
    assert_eq!(decode(",cd"), Err(ProtocolError::MalformedInput));
    assert_eq!(decode("ab,"), Err(ProtocolError::MalformedInput));
    assert_eq!(decode(","), Err(ProtocolError::MalformedInput));
}
