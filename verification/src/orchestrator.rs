//! The host orchestrator.
//!
//! A strictly linear pipeline: generate the key pair, send the encoded
//! public key, prove the guest execution, extract and decrypt the committed
//! ciphertext, verify the receipt, done.  Each stage is a blocking step; a
//! failure in any stage aborts the run with that stage's typed failure, and
//! no stage is ever revisited.  Partial state — a key pair whose public
//! half went out without a matching proof — is never reused: a retry is a
//! whole fresh run.
//!
//! The reference flow decrypts before verifying; that ordering is safe only
//! because the host itself holds the private key.  Any consumer without the
//! private key must call the verifier before acting on the committed
//! output.

use vstd::prelude::*;

use rsa::traits::PublicKeyParts;

use crate::codec;
use crate::codec::PublicKey;
use crate::engine;
use crate::engine::ProgramIdentity;
use crate::errors::ProtocolError;
use crate::hexnum::{canonical, digits_value};
use crate::journal;

verus! {

#[verifier::external_type_specification]
#[verifier::external_body]
pub struct ExRsaPrivateKey(rsa::RsaPrivateKey);

/// Relies on `RsaPrivateKey::new` with the operating system's randomness
/// source, `PublicKeyParts::n`/`e` and `BigUint::to_radix_be`: generates a
/// fresh RSA key pair of the given bit size and reads the public component
/// back as canonical base-16 digit values, most significant first, without
/// leading zeros.  For any size of at least 64 bits, generation retries
/// internally until it succeeds, so every return is a key; only smaller
/// sizes are rejected deterministically.  A generated modulus has exactly
/// the requested bit count — hence `(bits + 3) / 4` hexadecimal digits and,
/// from 64 bits up, a value above the fixed public exponent — and is a
/// product of two odd primes, hence odd.  The public exponent is always the
/// fixed value 65537.
#[verifier::external_body]
fn rsa_generate(bits: usize) -> (r: Result<(rsa::RsaPrivateKey, Vec<u8>, Vec<u8>), rsa::Error>)
    ensures
        bits >= 64 ==> r is Ok,
        r matches Ok(t) ==> {
            &&& canonical(t.1@)
            &&& canonical(t.2@)
            &&& t.1@.len() == (bits + 3) / 4
            &&& digits_value(t.1@) % 2 == 1
            &&& t.2@ == seq![1u8, 0u8, 0u8, 0u8, 1u8]
            &&& (bits >= 64 ==> digits_value(t.1@) > 0x1_0001)
        },
{
    let mut rng = rand::rngs::OsRng;
    let key = rsa::RsaPrivateKey::new(&mut rng, bits)?;
    let n = key.n().to_radix_be(16);
    let e = key.e().to_radix_be(16);
    Ok((key, n, e))
}

/// Relies on `RsaPrivateKey::decrypt` with `Pkcs1v15Encrypt`: recovers the
/// padded plaintext of a ciphertext produced under the matching public key,
/// or reports the library's failure on padding corruption or a key
/// mismatch.
#[verifier::external_body]
fn rsa_decrypt(key: &rsa::RsaPrivateKey, cipher: &[u8]) -> (r: Result<Vec<u8>, rsa::Error>) {
    key.decrypt(rsa::Pkcs1v15Encrypt, cipher)
}

/// The host's key pair.  The private component stays inside this type for
/// the run's duration and is only ever used to decrypt; the public
/// component is what crosses the host/guest boundary.
pub struct KeyPair {
    secret: rsa::RsaPrivateKey,
    public: PublicKey,
}

impl KeyPair {
    /// The public component of the pair.
    pub closed spec fn spec_public(&self) -> PublicKey {
        self.public
    }

    /// The public component is well formed.
    pub open spec fn wf(&self) -> bool {
        self.spec_public().wf()
    }

    /// The public component, the only part that may leave the host.
    pub fn public_part(&self) -> (p: &PublicKey)
        ensures
            p == self.spec_public(),
    {
        &self.public
    }

    /// Generate a fresh key pair of the given bit size.
    ///
    /// Succeeds for every size of at least 64 bits, and the public
    /// component then has the generated shape (`generated_public_key`):
    /// a modulus of exactly `(bits + 3) / 4` hexadecimal digits, odd and
    /// above the fixed public exponent 65537.  Fails with `ExecutionFault`
    /// when the cryptography library rejects the size; no partial key
    /// material is returned then.
    pub fn generate(bits: usize) -> (r: Result<KeyPair, ProtocolError>)
        ensures
            bits >= 64 ==> r is Ok,
            r matches Ok(kp) ==> kp.wf(),
            bits >= 64 ==> (r matches Ok(kp) ==> crate::guest::generated_public_key(
                kp.spec_public(),
                (bits + 3) / 4,
            )),
            r matches Err(k) ==> k == ProtocolError::ExecutionFault,
    {
        let (secret, n, e) = match rsa_generate(bits) {
            Ok(t) => t,
            Err(_) => {
                return Err(ProtocolError::ExecutionFault);
            },
        };
        Ok(KeyPair { secret, public: PublicKey { n, e } })
    }

    /// Decrypt a ciphertext with the private component.
    ///
    /// Fails with `DecryptionFailed` when the cryptography library rejects
    /// the ciphertext; nothing is substituted for the plaintext then.
    pub fn decrypt(&self, cipher: &[u8]) -> (r: Result<Vec<u8>, ProtocolError>)
        ensures
            r matches Err(k) ==> k == ProtocolError::DecryptionFailed,
    {
        match rsa_decrypt(&self.secret, cipher) {
            Ok(plain) => Ok(plain),
            Err(_) => Err(ProtocolError::DecryptionFailed),
        }
    }
}

/// The stages of the pipeline, in order, with the single failure state.
#[derive(Clone, Copy, Debug, PartialEq, Eq, Structural)]
pub enum Stage {
    /// Nothing has happened yet.
    Init,
    /// The key pair exists.
    KeygenDone,
    /// The encoded public key went out to the guest.
    KeySent,
    /// The receipt came back from the proof engine.
    Proved,
    /// The committed ciphertext was extracted and decrypted.
    Decrypted,
    /// The receipt passed verification against the expected identity.
    Verified,
    /// The run finished; the result may be released.
    Done,
    /// A stage failed; the run stops here for good.
    Aborted,
}

/// The stage that follows a successful step.
pub open spec fn next_stage(s: Stage) -> Stage {
    match s {
        Stage::Init => Stage::KeygenDone,
        Stage::KeygenDone => Stage::KeySent,
        Stage::KeySent => Stage::Proved,
        Stage::Proved => Stage::Decrypted,
        Stage::Decrypted => Stage::Verified,
        Stage::Verified => Stage::Done,
        Stage::Done => Stage::Done,
        Stage::Aborted => Stage::Aborted,
    }
}

/// The position of a stage along the pipeline.
pub open spec fn stage_rank(s: Stage) -> int {
    match s {
        Stage::Init => 0,
        Stage::KeygenDone => 1,
        Stage::KeySent => 2,
        Stage::Proved => 3,
        Stage::Decrypted => 4,
        Stage::Verified => 5,
        Stage::Done => 6,
        Stage::Aborted => 7,
    }
}

/// A stage from which the pipeline cannot move on.
pub open spec fn is_terminal(s: Stage) -> bool {
    s == Stage::Done || s == Stage::Aborted
}

/// The failure kinds that the component working at a given stage can raise.
pub open spec fn kind_allowed(at: Stage, k: ProtocolError) -> bool {
    match at {
        Stage::Init => k == ProtocolError::ExecutionFault,
        Stage::KeySent => k == ProtocolError::ExecutionFault,
        Stage::Proved => k == ProtocolError::MalformedInput || k
            == ProtocolError::DecryptionFailed,
        Stage::Decrypted => k == ProtocolError::VerificationFailed,
        _ => false,
    }
}

/// Take one step of the pipeline: on success the next stage, on any failure
/// the abort state.
pub fn advance(s: Stage, ok: bool) -> (r: Stage)
    requires
        !is_terminal(s),
    ensures
        ok ==> r == next_stage(s),
        !ok ==> r == Stage::Aborted,
{
    if ok {
        match s {
            Stage::Init => Stage::KeygenDone,
            Stage::KeygenDone => Stage::KeySent,
            Stage::KeySent => Stage::Proved,
            Stage::Proved => Stage::Decrypted,
            Stage::Decrypted => Stage::Verified,
            Stage::Verified => Stage::Done,
            Stage::Done => Stage::Done,
            Stage::Aborted => Stage::Aborted,
        }
    } else {
        Stage::Aborted
    }
}

/// Linearity law: a successful step always moves strictly forward, so no
/// stage is ever revisited, and the pipeline cannot leave its two terminal
/// stages.
pub proof fn lemma_pipeline_linear(s: Stage)
    ensures
        !is_terminal(s) ==> stage_rank(next_stage(s)) > stage_rank(s),
        is_terminal(s) ==> next_stage(s) == s,
{
}

/// Where a run failed: the stage whose component raised the failure, and
/// its kind.
pub struct StageFailure {
    /// The stage the pipeline had reached when the failure happened.
    pub at: Stage,
    /// The failure kind raised by that stage's component.
    pub kind: ProtocolError,
}

/// Everything a completed run releases.
pub struct RunOutcome {
    /// The public component the guest worked under.
    pub public: PublicKey,
    /// The encoded public key exactly as it went out.
    pub transport: String,
    /// The ciphertext extracted from the receipt's committed output.
    pub ciphertext: Vec<u8>,
    /// The locally decrypted plaintext bytes.
    pub recovered: Vec<u8>,
    /// The opaque serialized proof material, when serialization succeeded.
    pub proof_material: Option<Vec<u8>>,
}

/// Drive one whole run of the protocol: key generation, proving, committed
/// output extraction, local decryption, and receipt verification, in that
/// order, failing closed at the first failure.
///
/// On failure the reported stage and kind identify the failing component,
/// as `kind_allowed` states; for any key size of at least 64 bits the run
/// cannot fail at key generation.  On success the released outcome is
/// consistent: the public component is well formed and the transport string
/// is exactly its encoding.
pub fn run_protocol(elf: &[u8], expected: &ProgramIdentity, bits: usize) -> (r: Result<
    RunOutcome,
    StageFailure,
>)
    ensures
        r matches Err(f) ==> kind_allowed(f.at, f.kind) && !is_terminal(f.at),
        bits >= 64 ==> !(r matches Err(f) && f.at == Stage::Init),
        r matches Ok(o) ==> {
            &&& o.public.wf()
            &&& vstd::utf8::encode_utf8(o.transport@) == codec::spec_encode(
                o.public.n@,
                o.public.e@,
            )
        },
        bits >= 64 ==> (r matches Ok(o) ==> crate::guest::generated_public_key(
            o.public,
            (bits + 3) / 4,
        )),
{
    let mut stage = Stage::Init;

    let kp = match KeyPair::generate(bits) {
        Ok(kp) => kp,
        Err(k) => {
            return Err(StageFailure { at: stage, kind: k });
        },
    };
    stage = advance(stage, true);

    let transport = codec::encode(&kp.public);
    stage = advance(stage, true);

    let receipt = match engine::execute(elf, transport.as_str()) {
        Ok(receipt) => receipt,
        Err(k) => {
            return Err(StageFailure { at: stage, kind: k });
        },
    };
    stage = advance(stage, true);

    let journal_bytes = engine::journal_of(&receipt);
    let ciphertext = match journal::decode_journal(&journal_bytes) {
        Ok(c) => c,
        Err(k) => {
            return Err(StageFailure { at: stage, kind: k });
        },
    };
    let recovered = match kp.decrypt(&ciphertext) {
        Ok(p) => p,
        Err(k) => {
            return Err(StageFailure { at: stage, kind: k });
        },
    };
    stage = advance(stage, true);

    let proof_material = engine::proof_material_of(&receipt);

    match engine::confirm(&receipt, expected) {
        Ok(()) => {
            stage = advance(stage, true);
        },
        Err(k) => {
            return Err(StageFailure { at: stage, kind: k });
        },
    };
    stage = advance(stage, true);
    assert(stage == Stage::Done);

    Ok(
        RunOutcome {
            public: kp.public,
            transport,
            ciphertext,
            recovered,
            proof_material,
        },
    )
}

} // verus!
