use zkenc::errors::ProtocolError;
use zkenc::orchestrator::{advance, run_protocol, Stage};
use zkenc::engine::ProgramIdentity;

#[test]
fn pipeline_advances_in_order() {
    assert_eq!(advance(Stage::Init, true), Stage::KeygenDone);
    assert_eq!(advance(Stage::KeygenDone, true), Stage::KeySent);
    assert_eq!(advance(Stage::KeySent, true), Stage::Proved);
    assert_eq!(advance(Stage::Proved, true), Stage::Decrypted);
    assert_eq!(advance(Stage::Decrypted, true), Stage::Verified);
    assert_eq!(advance(Stage::Verified, true), Stage::Done);
}

#[test]
fn pipeline_aborts_on_failure() {
    assert_eq!(advance(Stage::Init, false), Stage::Aborted);
    assert_eq!(advance(Stage::KeySent, false), Stage::Aborted);
    assert_eq!(advance(Stage::Verified, false), Stage::Aborted);
}

// Without a proving environment the pipeline must stop at the proving
// stage with an execution fault, after key generation and key transport
// succeeded; nothing downstream runs.
#[test]
fn run_stops_at_proving_without_prover() {
    let identity = ProgramIdentity { words: [0; 8] };
    let not_an_elf: Vec<u8> = vec![0, 1, 2, 3];
    match run_protocol(&not_an_elf, &identity, 1024) {
        Ok(_) => panic!("proving cannot succeed here"),
        Err(f) => {
            assert_eq!(f.at, Stage::KeySent);
            assert_eq!(f.kind, ProtocolError::ExecutionFault);
        },
    }
}

// A forged receipt — one that carries a claim but no real proof — must be
// rejected against any expected identity: verification fails closed.
#[test]
fn forged_receipt_fails_verification() {
    let journal: Vec<u8> = vec![1, 0, 0, 0, 42, 0, 0, 0];
    let image_id = risc0_zkvm::sha::Digest::from([7u32; 8]);
    let claim = risc0_zkvm::ReceiptClaim::ok(image_id, journal.clone());
    let inner = risc0_zkvm::InnerReceipt::Fake(risc0_zkvm::FakeReceipt::new(claim));
    let receipt = risc0_zkvm::Receipt::new(inner, journal);
    let identity = ProgramIdentity { words: [7u32; 8] };
    assert_eq!(
        zkenc::engine::confirm(&receipt, &identity),
        Err(ProtocolError::VerificationFailed)
    );
}
