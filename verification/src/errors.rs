use vstd::prelude::*;

verus! {

/// The failure kinds of the protocol.  Every stage fails closed: no stage
/// substitutes a default value or proceeds past a failed dependency.
#[derive(Clone, Copy, Debug, PartialEq, Eq, Structural)]
pub enum ProtocolError {
    /// An encoding or decoding failed; no partial result is produced.
    MalformedInput,
    /// The guest computation halted abnormally; no receipt is produced.
    ExecutionFault,
    /// The receipt failed its cryptographic checks; the committed output
    /// must be discarded.
    VerificationFailed,
    /// Local decryption of the committed ciphertext failed.
    DecryptionFailed,
}

} // verus!
