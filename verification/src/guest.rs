//! The guest computation.
//!
//! Inside the isolated execution environment the guest receives exactly one
//! input, the encoded public key.  It decodes the key, builds the encryption
//! primitive from the raw components without any validation — the guest
//! trusts the exact bytes handed to it — and encrypts the plaintext with
//! randomized PKCS#1 v1.5 padding.  Only the resulting ciphertext may reach
//! the public output channel; a key that cannot be parsed halts the
//! computation rather than letting it proceed under an ill-defined key.

use vstd::prelude::*;

use crate::codec;
use crate::errors::ProtocolError;
use crate::hexnum::{canonical, digits_value};
use crate::journal;

verus! {

#[verifier::external_type_specification]
#[verifier::external_body]
pub struct ExRsaError(rsa::Error);

/// When PKCS#1 v1.5 encryption of `msg` under the public key (`n`, `e`),
/// given as canonical digit values, succeeds.  The outcome is a function of
/// the three arguments alone — randomness affects only the ciphertext
/// bytes.  The primitive accepts the key exactly when the modulus is odd,
/// the exponent is odd, at least 2, at most 2^33 - 1 and below the modulus,
/// and the message together with its 11 padding bytes fits in one modulus
/// length, which for a canonical modulus of `L` digits is `(L + 1) / 2`
/// bytes.
pub open spec fn ok_to_encrypt(n: Seq<u8>, e: Seq<u8>, msg: Seq<u8>) -> bool {
    let nv = digits_value(n);
    let ev = digits_value(e);
    &&& nv % 2 == 1
    &&& ev % 2 == 1
    &&& 2 <= ev
    &&& ev <= 0x1_FFFF_FFFF
    &&& ev < nv
    &&& msg.len() + 11 <= (n.len() + 1) / 2
}

/// The shape of a public component produced by the host's key generation:
/// canonical, a modulus of exactly `digits` hexadecimal digits whose value
/// is odd and above the fixed public exponent, and 65537 itself as the
/// exponent.
pub open spec fn generated_public_key(pk: codec::PublicKey, digits: int) -> bool {
    &&& pk.wf()
    &&& pk.n@.len() == digits
    &&& digits_value(pk.n@) % 2 == 1
    &&& digits_value(pk.n@) > 0x1_0001
    &&& pk.e@ == seq![1u8, 0u8, 0u8, 0u8, 1u8]
}

/// The digit sequence of the fixed public exponent denotes 65537.
proof fn lemma_exponent_value()
    ensures
        digits_value(seq![1u8, 0u8, 0u8, 0u8, 1u8]) == 0x1_0001,
{
    let e4 = seq![1u8, 0u8, 0u8, 0u8];
    let e3 = seq![1u8, 0u8, 0u8];
    let e2 = seq![1u8, 0u8];
    let e1 = seq![1u8];
    assert(seq![1u8, 0u8, 0u8, 0u8, 1u8].drop_last() =~= e4);
    assert(e4.drop_last() =~= e3);
    assert(e3.drop_last() =~= e2);
    assert(e2.drop_last() =~= e1);
    assert(e1.drop_last() =~= Seq::<u8>::empty());
    assert(digits_value(Seq::<u8>::empty()) == 0);
    assert(digits_value(e1) == 1);
    assert(digits_value(e2) == 16);
    assert(digits_value(e3) == 256);
    assert(digits_value(e4) == 4096);
}

/// Encryption law: a key of the generated shape accepts every message that
/// fits beside the 11 padding bytes — encryption under it cannot fail for
/// such a message.
pub proof fn lemma_generated_key_encrypts(pk: codec::PublicKey, digits: int, msg: Seq<u8>)
    requires
        generated_public_key(pk, digits),
        msg.len() + 11 <= (pk.n@.len() + 1) / 2,
    ensures
        ok_to_encrypt(pk.n@, pk.e@, msg),
{
    lemma_exponent_value();
}

/// Relies on `BigUint::from_radix_be`, `RsaPublicKey::new_unchecked` and
/// `RsaPublicKey::encrypt` with `Pkcs1v15Encrypt` and the operating system's
/// randomness source: builds the key from the given base-16 digit values
/// without validating them, and encrypts with randomized padding.  The call
/// succeeds exactly when the key and message pass the primitive's own
/// checks (`ok_to_encrypt`: an odd modulus, an odd exponent in the accepted
/// range and below the modulus, and a message that fits beside the 11
/// padding bytes); the ciphertext is then exactly as long as the modulus in
/// bytes, which for a canonical digit sequence of length `L` is
/// `(L + 1) / 2`.
#[verifier::external_body]
fn rsa_encrypt_pkcs1v15(n: &Vec<u8>, e: &Vec<u8>, msg: &[u8]) -> (r: Result<
    Vec<u8>,
    rsa::Error,
>)
    requires
        canonical(n@),
        canonical(e@),
    ensures
        r is Ok <==> ok_to_encrypt(n@, e@, msg@),
        r matches Ok(c) ==> c@.len() == (n@.len() + 1) / 2,
{
    let modulus = rsa::BigUint::from_radix_be(n, 16).expect("digit values below 16");
    let exponent = rsa::BigUint::from_radix_be(e, 16).expect("digit values below 16");
    let key = rsa::RsaPublicKey::new_unchecked(modulus, exponent);
    let mut rng = rand::rngs::OsRng;
    key.encrypt(&mut rng, rsa::Pkcs1v15Encrypt, msg)
}

/// Run the guest computation: decode the key, encrypt the plaintext under
/// it, and return the ciphertext that is to be committed.
///
/// Fails with `MalformedInput` exactly when the encoded key does not
/// decode; given a decodable key, succeeds exactly when the encryption
/// primitive accepts the key and message (`ok_to_encrypt`), and fails with
/// `ExecutionFault` otherwise; on success the ciphertext is exactly one
/// modulus length of bytes.  Nothing besides the returned ciphertext is
/// produced for the output channel.
pub fn guest_compute(encoded: &str, plaintext: &[u8]) -> (r: Result<Vec<u8>, ProtocolError>)
    ensures
        ({
            let d = codec::spec_decode(vstd::utf8::encode_utf8(encoded@));
            &&& (d is None <==> r == Err::<Vec<u8>, ProtocolError>(
                ProtocolError::MalformedInput,
            ))
            &&& (d matches Some(p) ==> (r is Ok <==> ok_to_encrypt(p.0, p.1, plaintext@)))
            &&& match r {
                Ok(c) => d matches Some(p) && c@.len() == (p.0.len() + 1) / 2,
                Err(k) => k == ProtocolError::MalformedInput || k
                    == ProtocolError::ExecutionFault,
            }
        }),
{
    let pk = match codec::decode(encoded) {
        Ok(pk) => pk,
        Err(_) => {
            return Err(ProtocolError::MalformedInput);
        },
    };
    match rsa_encrypt_pkcs1v15(&pk.n, &pk.e, plaintext) {
        Ok(cipher) => Ok(cipher),
        Err(_) => Err(ProtocolError::ExecutionFault),
    }
}

/// What one guest execution hands to the outside world.
pub struct GuestOutput {
    /// The ciphertext produced under the decoded public key.
    pub ciphertext: Vec<u8>,
    /// The byte stream written to the single-use committed output channel.
    pub committed: Vec<u8>,
}

/// The whole guest program: decode the key, encrypt the plaintext, and
/// commit only the ciphertext.
///
/// The committed stream is exactly the journal form of the ciphertext and
/// of nothing else: neither the plaintext nor any key material is written
/// to the output channel, which is the only information the outside world
/// ever sees from this execution.  Given a decodable key, the run succeeds
/// exactly when the encryption primitive accepts the key and message and
/// the ciphertext fits the committed format's length word.
pub fn guest_run(encoded: &str, plaintext: &[u8]) -> (r: Result<GuestOutput, ProtocolError>)
    ensures
        ({
            let d = codec::spec_decode(vstd::utf8::encode_utf8(encoded@));
            &&& (d is None <==> r == Err::<GuestOutput, ProtocolError>(
                ProtocolError::MalformedInput,
            ))
            &&& (d matches Some(p) ==> (r is Ok <==> ok_to_encrypt(p.0, p.1, plaintext@)
                && (p.0.len() + 1) / 2 < 0x1_0000_0000))
            &&& match r {
                Ok(o) => {
                    &&& d matches Some(p) && o.ciphertext@.len() == (p.0.len() + 1) / 2
                    &&& o.committed@ == journal::spec_journal(o.ciphertext@)
                },
                Err(k) => k == ProtocolError::MalformedInput || k
                    == ProtocolError::ExecutionFault,
            }
        }),
{
    let ciphertext = match guest_compute(encoded, plaintext) {
        Ok(c) => c,
        Err(k) => {
            return Err(k);
        },
    };
    if (ciphertext.len() as u64) >= 0x1_0000_0000u64 {
        return Err(ProtocolError::ExecutionFault);
    }
    let committed = journal::encode_journal(&ciphertext);
    Ok(GuestOutput { ciphertext, committed })
}

} // verus!
