//! A proof-carrying execution protocol: a host holds an RSA key pair and asks
//! an isolated guest environment to encrypt a message under the public key,
//! obtaining a receipt that binds the guest program's identity to the committed
//! ciphertext.  The host decrypts the committed bytes locally and verifies the
//! receipt against the expected program identity before trusting the result.

pub mod codec;
pub mod engine;
pub mod errors;
pub mod guest;
pub mod hexnum;
pub mod journal;
pub mod orchestrator;
