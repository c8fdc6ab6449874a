use zkenc::errors::ProtocolError;
use zkenc::guest::guest_compute;

#[test]
fn guest_rejects_malformed_key() {
    assert_eq!(
        guest_compute("not a key", b"hello world"),
        Err(ProtocolError::MalformedInput)
    );
    assert_eq!(
        guest_compute("ab,cd,ef", b"hello world"),
        Err(ProtocolError::MalformedInput)
    );
}

#[test]
fn guest_faults_on_unusable_key() {
    // A one-byte modulus cannot carry any PKCS#1 v1.5 payload: the
    // encryption primitive rejects it and the guest halts.
    assert_eq!(
        guest_compute("f5,3", b"hello world"),
        Err(ProtocolError::ExecutionFault)
    );
}

#[test]
fn guest_commits_only_the_ciphertext() {
    let out = zkenc::guest::guest_run("f50c3b9e11aa77665544332b,10001", b"x").unwrap();
    // A modulus of 24 hexadecimal digits gives 12 bytes of ciphertext.
    assert_eq!(out.ciphertext.len(), 12);
    assert_eq!(out.committed, zkenc::journal::encode_journal(&out.ciphertext));
    assert_eq!(
        zkenc::journal::decode_journal(&out.committed).unwrap(),
        out.ciphertext
    );
}

#[test]
fn guest_faults_on_even_modulus() {
    // Same size as an accepted modulus, but even: the primitive rejects it.
    assert_eq!(
        guest_compute("f50c3b9e11aa77665544332a,10001", b"x"),
        Err(ProtocolError::ExecutionFault)
    );
}

#[test]
fn guest_faults_on_even_exponent() {
    assert_eq!(
        guest_compute("f50c3b9e11aa77665544332b,10002", b"x"),
        Err(ProtocolError::ExecutionFault)
    );
}

#[test]
fn guest_faults_on_oversized_message() {
    // Twelve modulus bytes leave room for one message byte beside the
    // eleven padding bytes; two bytes must be rejected.
    assert_eq!(
        guest_compute("f50c3b9e11aa77665544332b,10001", b"xy"),
        Err(ProtocolError::ExecutionFault)
    );
}
