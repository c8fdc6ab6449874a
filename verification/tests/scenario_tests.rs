use zkenc::codec::{decode, encode};
use zkenc::guest::guest_compute;
use zkenc::journal::{decode_journal, encode_journal};
use zkenc::orchestrator::KeyPair;

// The host-and-guest data path, short of the proving environment itself:
// generate a 2048-bit key pair, encode its public half, run the guest
// computation on the transport string, commit the ciphertext in journal
// form, extract it again, and decrypt with the private half.
#[test]
fn end_to_end_data_path() {
    let kp = KeyPair::generate(2048).unwrap();
    let transport = encode(kp.public_part());
    // The default public exponent is 65537, in canonical lower-case hex.
    assert!(transport.ends_with(",10001"));

    // The transport string decodes back to the key the guest will use.
    let decoded = decode(&transport).unwrap();
    assert_eq!(&decoded, kp.public_part());

    let ciphertext = guest_compute(&transport, b"hello world").unwrap();
    // A 2048-bit modulus gives exactly 256 bytes of ciphertext.
    assert_eq!(ciphertext.len(), 256);

    // The committed output carries the ciphertext and nothing else.
    let journal = encode_journal(&ciphertext);
    assert_eq!(journal.len(), 4 + 4 * 256);
    let extracted = decode_journal(&journal).unwrap();
    assert_eq!(extracted, ciphertext);

    let recovered = kp.decrypt(&extracted).unwrap();
    assert_eq!(recovered, b"hello world");
}

// Decryption consistency on a second, independent key pair: the recovered
// plaintext equals the original bytes exactly.
#[test]
fn decryption_recovers_plaintext() {
    let kp = KeyPair::generate(1024).unwrap();
    let transport = encode(kp.public_part());
    let ciphertext = guest_compute(&transport, b"attack at dawn").unwrap();
    assert_eq!(ciphertext.len(), 128);
    let recovered = kp.decrypt(&ciphertext).unwrap();
    assert_eq!(recovered, b"attack at dawn");
}

// Randomized padding: two encryptions under the same key differ, and a
// ciphertext does not contain the plaintext in the clear.
#[test]
fn ciphertext_hides_plaintext() {
    let kp = KeyPair::generate(1024).unwrap();
    let transport = encode(kp.public_part());
    let c1 = guest_compute(&transport, b"hello world").unwrap();
    let c2 = guest_compute(&transport, b"hello world").unwrap();
    assert_ne!(c1, c2);
    let needle: &[u8] = b"hello world";
    assert!(!c1.windows(needle.len()).any(|w| w == needle));
}

// Corrupting the ciphertext makes decryption fail closed rather than
// return bytes.
#[test]
fn corrupted_ciphertext_fails_decryption() {
    let kp = KeyPair::generate(1024).unwrap();
    let transport = encode(kp.public_part());
    let mut ciphertext = guest_compute(&transport, b"hello world").unwrap();
    ciphertext[0] ^= 0x80;
    assert!(kp.decrypt(&ciphertext).is_err());
}

// Key generation is owed success for any size of at least 64 bits, with
// the fixed public exponent.
#[test]
fn generate_small_key_pair_succeeds() {
    let kp = KeyPair::generate(64).unwrap();
    let transport = encode(kp.public_part());
    assert!(transport.ends_with(",10001"));
    // A 64-bit modulus has exactly 16 hexadecimal digits.
    assert_eq!(kp.public_part().n.len(), 16);
    assert_eq!(decode(&transport).unwrap(), *kp.public_part());
}
