use zkenc::errors::ProtocolError;
use zkenc::journal::{decode_journal, encode_journal};

#[test]
fn journal_exact_bytes() {
    let j = encode_journal(b"ab");
    assert_eq!(j, vec![2, 0, 0, 0, 97, 0, 0, 0, 98, 0, 0, 0]);
}

#[test]
fn journal_empty_commit() {
    let j = encode_journal(b"");
    assert_eq!(j, vec![0, 0, 0, 0]);
    assert_eq!(decode_journal(&j).unwrap(), Vec::<u8>::new());
}

#[test]
fn journal_round_trip_concrete() {
    let data: Vec<u8> = (0..=255).collect();
    let j = encode_journal(&data);
    assert_eq!(decode_journal(&j).unwrap(), data);
}

#[test]
fn journal_rejects_short_stream() {
    assert_eq!(decode_journal(&[1, 0, 0]), Err(ProtocolError::MalformedInput));
    assert_eq!(decode_journal(&[]), Err(ProtocolError::MalformedInput));
}

#[test]
fn journal_rejects_wrong_length() {
    // Claims two bytes but carries one word.
    assert_eq!(
        decode_journal(&[2, 0, 0, 0, 97, 0, 0, 0]),
        Err(ProtocolError::MalformedInput)
    );
    // Trailing garbage after the declared words.
    assert_eq!(
        decode_journal(&[1, 0, 0, 0, 97, 0, 0, 0, 5]),
        Err(ProtocolError::MalformedInput)
    );
}

#[test]
fn journal_rejects_nonzero_padding() {
    assert_eq!(
        decode_journal(&[1, 0, 0, 0, 97, 1, 0, 0]),
        Err(ProtocolError::MalformedInput)
    );
}

#[test]
fn journal_matches_proving_library_serde() {
    // The proving environment's own serializer must produce exactly the
    // word stream this library commits and parses.
    let data: Vec<u8> = vec![7, 0, 255, 42, 1];
    let words = risc0_zkvm::serde::to_vec(&data).unwrap();
    let mut bytes: Vec<u8> = Vec::new();
    for w in words {
        bytes.extend_from_slice(&w.to_le_bytes());
    }
    assert_eq!(bytes, encode_journal(&data));
    assert_eq!(decode_journal(&bytes).unwrap(), data);
}
