//! The proof engine and receipt verifier.
//!
//! The proving library executes a guest program inside an isolated,
//! resource-bounded environment and returns a receipt binding the program's
//! identity, its committed output and a proof.  The receipt is opaque to
//! this library: it is produced once, never mutated, and everything read
//! from it passes through the small trusted surface below.  The verified
//! code decides what each outcome means and always fails closed.

use vstd::prelude::*;

use crate::errors::ProtocolError;

verus! {

#[verifier::external_type_specification]
#[verifier::external_body]
pub struct ExReceipt(risc0_zkvm::Receipt);

/// The content-derived identifier of the exact guest program binary.  The
/// host must know it ahead of time: verification is performed against this
/// expected identity, never against one read from the receipt itself.
#[derive(Clone, Copy, Debug)]
pub struct ProgramIdentity {
    /// The eight words of the program's image identifier digest.
    pub words: [u32; 8],
}

/// Relies on `ExecutorEnv::builder().write(..)` and
/// `Prover::prove_with_ctx` with `ProverOpts::groth16()`: runs the guest
/// binary to completion with the given input as its single input value and
/// returns the receipt, or nothing when execution or proving halted
/// abnormally, in which case no receipt exists at all.
#[verifier::external_body]
fn risc0_prove(elf: &[u8], input: &str) -> (r: Option<risc0_zkvm::Receipt>) {
    let env = risc0_zkvm::ExecutorEnv::builder().write(&input).ok()?.build().ok()?;
    let info = risc0_zkvm::default_prover()
        .prove_with_ctx(
            env,
            &risc0_zkvm::VerifierContext::default(),
            elf,
            &risc0_zkvm::ProverOpts::groth16(),
        )
        .ok()?;
    Some(info.receipt)
}

/// Relies on the `journal` field of `Receipt`: the raw bytes the guest
/// committed to its public output channel, and nothing else.
#[verifier::external_body]
fn risc0_journal_bytes(receipt: &risc0_zkvm::Receipt) -> (b: Vec<u8>) {
    receipt.journal.bytes.clone()
}

/// Relies on `Receipt::verify`: true exactly when the proof is valid under
/// the proof system's parameters for the given image identifier and binds
/// the receipt's committed output; false on any mismatch, tampering or
/// internal error.
#[verifier::external_body]
fn risc0_verify(receipt: &risc0_zkvm::Receipt, image_id: &[u32; 8]) -> (ok: bool) {
    receipt.verify(*image_id).is_ok()
}

/// Relies on `bincode::serialize` of the receipt's inner proof: an opaque
/// byte-exact serialization of the proof material in the proving library's
/// own binary format.
#[verifier::external_body]
fn risc0_proof_bytes(receipt: &risc0_zkvm::Receipt) -> (b: Option<Vec<u8>>) {
    bincode::serialize(&receipt.inner).ok()
}

/// Execute the guest program on the given input and return its receipt.
///
/// Fails with `ExecutionFault` when the guest halted abnormally; no receipt
/// is produced then and the protocol must not proceed.
pub fn execute(elf: &[u8], input: &str) -> (r: Result<risc0_zkvm::Receipt, ProtocolError>)
    ensures
        r matches Err(k) ==> k == ProtocolError::ExecutionFault,
{
    match risc0_prove(elf, input) {
        Some(receipt) => Ok(receipt),
        None => Err(ProtocolError::ExecutionFault),
    }
}

/// The committed output carried inside the receipt, as raw journal bytes.
/// The receipt is only read, never changed.
pub fn journal_of(receipt: &risc0_zkvm::Receipt) -> Vec<u8> {
    risc0_journal_bytes(receipt)
}

/// The opaque serialized proof material of the receipt, when the proving
/// library can serialize it.
pub fn proof_material_of(receipt: &risc0_zkvm::Receipt) -> Option<Vec<u8>> {
    risc0_proof_bytes(receipt)
}

/// Check the receipt against the expected program identity.
///
/// Fails closed with `VerificationFailed` on any inconsistency: an invalid
/// proof, an identity other than the expected one, or a committed output
/// the proof no longer binds.  This must succeed before the committed
/// output is trusted by any party that does not hold the private key.
pub fn confirm(receipt: &risc0_zkvm::Receipt, expected: &ProgramIdentity) -> (r: Result<
    (),
    ProtocolError,
>)
    ensures
        r matches Err(k) ==> k == ProtocolError::VerificationFailed,
{
    if risc0_verify(receipt, &expected.words) {
        Ok(())
    } else {
        Err(ProtocolError::VerificationFailed)
    }
}

} // verus!
