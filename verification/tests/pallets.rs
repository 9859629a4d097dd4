use ledger_runtime::balances;
use ledger_runtime::proof_of_existence;
use ledger_runtime::support::DispatchError;
use ledger_runtime::system;

#[test]
fn init_balances() {
    let mut balances = balances::Pallet::new();

    assert_eq!(balances.balance(&"alice".to_string()), 0);
    balances.set_balance(&"alice".to_string(), 100);
    assert_eq!(balances.balance(&"alice".to_string()), 100);
    assert_eq!(balances.balance(&"bob".to_string()), 0)
}

#[test]
fn transfer_balance() {
    let mut balances = balances::Pallet::new();
    balances.set_balance(&"alice".to_string(), 50);
    balances.set_balance(&"bob".to_string(), 100);

    let result = balances.transfer("alice".to_string(), "bob".to_string(), 100);
    assert_eq!(result, Err(DispatchError::InsufficientFunds));
    assert_eq!(result.unwrap_err().message(), "Not enough funds");

    let result = balances.transfer("alice".to_string(), "bob".to_string(), 20);
    assert_eq!(result, Ok(()));

    assert_eq!(balances.balance(&"alice".to_string()), 30);
    assert_eq!(balances.balance(&"bob".to_string()), 120);
}

#[test]
fn basic_proof_of_existence() {
    let mut pallet = proof_of_existence::Pallet::new();

    assert!(pallet.is_empty());
    let _ = pallet.create_claim("Alice".to_string(), "The Book of Alice".to_string());
    assert!(!pallet.is_empty());

    let result = pallet.create_claim("Alice".to_string(), "The Book of Alice".to_string());
    assert_eq!(result, Err(DispatchError::ClaimAlreadyExists));
    assert_eq!(result.unwrap_err().message(), "Claim already exists");
    let bob_claim = pallet.get_claim(&"The Book of Bob".to_string());
    assert_eq!(bob_claim, None);
    let result = pallet.revoke_claim("Bob".to_string(), "The Book of Bob".to_string());
    assert_eq!(result, Err(DispatchError::ClaimNotFound));
    assert_eq!(result.unwrap_err().message(), "Claim does not exist");
    let result = pallet.revoke_claim("Bob".to_string(), "The Book of Alice".to_string());
    assert_eq!(result, Err(DispatchError::NotClaimOwner));
    assert_eq!(result.unwrap_err().message(), "Not the owner");

    let result = pallet.revoke_claim("Alice".to_string(), "The Book of Alice".to_string());
    assert_eq!(result, Ok(()));

    assert!(pallet.is_empty());
}

#[test]
fn init_system() {
    let mut system_pallet = system::Pallet::new();
    system_pallet.inc_block_number();
    assert_eq!(system_pallet.block_number(), 1);
    system_pallet.inc_nonce(&"alice".to_string());
    assert_eq!(system_pallet.nonce(&"alice".to_string()), Some(&1));
    assert_eq!(system_pallet.nonce(&"bob".to_string()), None);
}

#[test]
fn fresh_pallets_read_zero() {
    let balances = balances::Pallet::new();
    let system_pallet = system::Pallet::new();
    let poe = proof_of_existence::Pallet::new();
    assert_eq!(balances.balance(&"nobody".to_string()), 0);
    assert_eq!(system_pallet.block_number(), 0);
    assert_eq!(system_pallet.nonce(&"nobody".to_string()), None);
    assert_eq!(poe.get_claim(&"unclaimed".to_string()), None);
}

#[test]
fn transfer_overflow_leaves_ledger_untouched() {
    let mut balances = balances::Pallet::new();
    balances.set_balance(&"alice".to_string(), 5);
    balances.set_balance(&"bob".to_string(), u128::MAX);

    let result = balances.transfer("alice".to_string(), "bob".to_string(), 1);
    assert_eq!(result, Err(DispatchError::Overflow));
    assert_eq!(result.unwrap_err().message(), "Amount is too large");
    assert_eq!(balances.balance(&"alice".to_string()), 5);
    assert_eq!(balances.balance(&"bob".to_string()), u128::MAX);
}

#[test]
fn successful_transfers_conserve_total() {
    let mut balances = balances::Pallet::new();
    balances.set_balance(&"alice".to_string(), 100);
    balances.set_balance(&"bob".to_string(), 20);

    let total = |b: &balances::Pallet| {
        b.balance(&"alice".to_string()) + b.balance(&"bob".to_string())
            + b.balance(&"charlie".to_string())
    };
    assert_eq!(total(&balances), 120);
    assert_eq!(balances.transfer("alice".to_string(), "bob".to_string(), 70), Ok(()));
    assert_eq!(total(&balances), 120);
    assert_eq!(balances.transfer("bob".to_string(), "charlie".to_string(), 90), Ok(()));
    assert_eq!(total(&balances), 120);
    assert_eq!(balances.transfer("alice".to_string(), "alice".to_string(), 10), Ok(()));
    assert_eq!(total(&balances), 120);
    assert_eq!(balances.balance(&"alice".to_string()), 30);
    assert_eq!(balances.balance(&"bob".to_string()), 0);
    assert_eq!(balances.balance(&"charlie".to_string()), 90);
}

#[test]
fn self_transfer_changes_nothing() {
    let mut balances = balances::Pallet::new();
    balances.set_balance(&"alice".to_string(), 100);

    assert_eq!(balances.transfer("alice".to_string(), "alice".to_string(), 30), Ok(()));
    assert_eq!(balances.balance(&"alice".to_string()), 100);

    assert_eq!(
        balances.transfer("alice".to_string(), "alice".to_string(), 1000),
        Err(DispatchError::InsufficientFunds)
    );
    assert_eq!(balances.balance(&"alice".to_string()), 100);

    balances.set_balance(&"bob".to_string(), u128::MAX);
    assert_eq!(
        balances.transfer("bob".to_string(), "bob".to_string(), 1),
        Err(DispatchError::Overflow)
    );
    assert_eq!(balances.balance(&"bob".to_string()), u128::MAX);
}

#[test]
fn claim_unique_until_revoked() {
    let mut pallet = proof_of_existence::Pallet::new();
    assert_eq!(pallet.create_claim("alice".to_string(), "X".to_string()), Ok(()));
    assert_eq!(
        pallet.create_claim("bob".to_string(), "X".to_string()),
        Err(DispatchError::ClaimAlreadyExists)
    );
    assert_eq!(
        pallet.create_claim("alice".to_string(), "X".to_string()),
        Err(DispatchError::ClaimAlreadyExists)
    );
    assert_eq!(pallet.get_claim(&"X".to_string()), Some(&"alice".to_string()));
    assert_eq!(pallet.revoke_claim("alice".to_string(), "X".to_string()), Ok(()));
    assert_eq!(pallet.create_claim("bob".to_string(), "X".to_string()), Ok(()));
    assert_eq!(pallet.get_claim(&"X".to_string()), Some(&"bob".to_string()));
}
