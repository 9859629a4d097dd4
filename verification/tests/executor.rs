use ledger_runtime::balances;
use ledger_runtime::proof_of_existence;
use ledger_runtime::support::{DispatchError, ExtrinsicFailure};
use ledger_runtime::{Block, Extrinsic, Header, Runtime, RuntimeCall};

fn transfer_call(to: &str, amount: u128) -> RuntimeCall {
    RuntimeCall::Balances(balances::Call::Transfer { to: to.to_string(), amount })
}

fn create_claim_call(caller: &str, claim: &str) -> RuntimeCall {
    RuntimeCall::ProofOfExistence(proof_of_existence::Call::CreateClaim {
        caller: caller.to_string(),
        claim: claim.to_string(),
    })
}

fn revoke_claim_call(caller: &str, claim: &str) -> RuntimeCall {
    RuntimeCall::ProofOfExistence(proof_of_existence::Call::RevokeClaim {
        caller: caller.to_string(),
        claim: claim.to_string(),
    })
}

fn extrinsic(caller: &str, call: RuntimeCall) -> Extrinsic {
    Extrinsic { caller: caller.to_string(), call }
}

#[test]
fn block_of_two_transfers_applies_in_order() {
    let mut runtime = Runtime::new();
    runtime.balances.set_balance(&"alice".to_string(), 100);

    let block = Block {
        header: Header { block_number: 1 },
        extrinsics: vec![
            extrinsic("alice", transfer_call("bob", 30)),
            extrinsic("alice", transfer_call("charlie", 20)),
        ],
    };
    let mut reports: Vec<ExtrinsicFailure> = Vec::new();
    assert_eq!(runtime.execute_block(block, &mut reports), Ok(()));
    assert!(reports.is_empty());
    assert_eq!(runtime.balances.balance(&"alice".to_string()), 50);
    assert_eq!(runtime.balances.balance(&"bob".to_string()), 30);
    assert_eq!(runtime.balances.balance(&"charlie".to_string()), 20);
    assert_eq!(runtime.system.block_number(), 1);
}

#[test]
fn failed_transfer_is_reported_and_still_bumps_the_nonce() {
    let mut runtime = Runtime::new();
    runtime.balances.set_balance(&"alice".to_string(), 50);

    let block = Block {
        header: Header { block_number: 1 },
        extrinsics: vec![extrinsic("alice", transfer_call("bob", 1000))],
    };
    let mut reports: Vec<ExtrinsicFailure> = Vec::new();
    assert_eq!(runtime.execute_block(block, &mut reports), Ok(()));
    assert_eq!(
        reports,
        vec![ExtrinsicFailure {
            block_number: 1,
            index: 0,
            error: DispatchError::InsufficientFunds,
        }]
    );
    assert_eq!(runtime.balances.balance(&"alice".to_string()), 50);
    assert_eq!(runtime.balances.balance(&"bob".to_string()), 0);
    assert_eq!(runtime.system.nonce(&"alice".to_string()), Some(&1));
}

#[test]
fn second_claim_of_same_content_fails() {
    let mut runtime = Runtime::new();
    let block = Block {
        header: Header { block_number: 1 },
        extrinsics: vec![
            extrinsic("alice", create_claim_call("alice", "X")),
            extrinsic("bob", create_claim_call("bob", "X")),
        ],
    };
    let mut reports: Vec<ExtrinsicFailure> = Vec::new();
    assert_eq!(runtime.execute_block(block, &mut reports), Ok(()));
    assert_eq!(
        reports,
        vec![ExtrinsicFailure {
            block_number: 1,
            index: 1,
            error: DispatchError::ClaimAlreadyExists,
        }]
    );
    assert_eq!(
        runtime.proof_of_existence.get_claim(&"X".to_string()),
        Some(&"alice".to_string())
    );
}

#[test]
fn revoke_is_gated_on_ownership() {
    let mut runtime = Runtime::new();
    let block = Block {
        header: Header { block_number: 1 },
        extrinsics: vec![
            extrinsic("alice", create_claim_call("alice", "X")),
            extrinsic("bob", revoke_claim_call("bob", "X")),
            extrinsic("alice", revoke_claim_call("alice", "X")),
        ],
    };
    let mut reports: Vec<ExtrinsicFailure> = Vec::new();
    assert_eq!(runtime.execute_block(block, &mut reports), Ok(()));
    assert_eq!(
        reports,
        vec![ExtrinsicFailure { block_number: 1, index: 1, error: DispatchError::NotClaimOwner }]
    );
    assert_eq!(runtime.proof_of_existence.get_claim(&"X".to_string()), None);
}

#[test]
fn mismatched_block_number_aborts_whole_block() {
    let mut runtime = Runtime::new();
    runtime.balances.set_balance(&"alice".to_string(), 100);

    let block = Block {
        header: Header { block_number: 5 },
        extrinsics: vec![extrinsic("alice", transfer_call("bob", 30))],
    };
    let mut reports: Vec<ExtrinsicFailure> = Vec::new();
    let result = runtime.execute_block(block, &mut reports);
    assert_eq!(result, Err(DispatchError::BlockNumberMismatch));
    assert_eq!(
        result.unwrap_err().message(),
        "The imported block number doesn't match the current's"
    );
    assert!(reports.is_empty());
    // The block number still advances; nothing else moves.
    assert_eq!(runtime.system.block_number(), 1);
    assert_eq!(runtime.balances.balance(&"alice".to_string()), 100);
    assert_eq!(runtime.balances.balance(&"bob".to_string()), 0);
    assert_eq!(runtime.system.nonce(&"alice".to_string()), None);
}

#[test]
fn nonce_counts_every_extrinsic_of_a_caller() {
    let mut runtime = Runtime::new();
    runtime.balances.set_balance(&"alice".to_string(), 10);

    let block = Block {
        header: Header { block_number: 1 },
        extrinsics: vec![
            extrinsic("alice", transfer_call("bob", 5)),
            extrinsic("alice", transfer_call("bob", 1000)),
            extrinsic("alice", create_claim_call("alice", "X")),
            extrinsic("bob", create_claim_call("bob", "X")),
        ],
    };
    let mut reports: Vec<ExtrinsicFailure> = Vec::new();
    assert_eq!(runtime.execute_block(block, &mut reports), Ok(()));
    // One of alice's three extrinsics failed; her nonce counts all three.
    assert_eq!(runtime.system.nonce(&"alice".to_string()), Some(&3));
    assert_eq!(runtime.system.nonce(&"bob".to_string()), Some(&1));
    assert_eq!(reports.len(), 2);
}

#[test]
fn blocks_must_arrive_in_sequence() {
    let mut runtime = Runtime::new();
    let mut reports: Vec<ExtrinsicFailure> = Vec::new();
    let first = Block { header: Header { block_number: 1 }, extrinsics: vec![] };
    let second = Block { header: Header { block_number: 2 }, extrinsics: vec![] };
    let replayed = Block { header: Header { block_number: 2 }, extrinsics: vec![] };
    assert_eq!(runtime.execute_block(first, &mut reports), Ok(()));
    assert_eq!(runtime.execute_block(second, &mut reports), Ok(()));
    assert_eq!(
        runtime.execute_block(replayed, &mut reports),
        Err(DispatchError::BlockNumberMismatch)
    );
    assert_eq!(runtime.system.block_number(), 3);
}
