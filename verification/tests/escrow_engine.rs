use chioma::escrow::{EscrowError, EscrowId, EscrowStatus};
use chioma::types::Address;
use chioma::Contract;

#[test]
fn test_create_escrow_success() {
    let mut contract = Contract::new();

    let depositor = Address(1);
    let beneficiary = Address(2);
    let arbiter = Address(3);
    let token = Address(4);

    // Test that create works by checking the escrow details after creation
    let escrow_id = contract
        .create_escrow(depositor, beneficiary, arbiter, 1000, token, 0)
        .unwrap();

    let escrow = contract.get_escrow(&escrow_id).unwrap();
    assert_eq!(escrow.depositor, depositor);
    assert_eq!(escrow.beneficiary, beneficiary);
    assert_eq!(escrow.arbiter, arbiter);
    assert_eq!(escrow.amount, 1000);
    assert_eq!(escrow.token, token);
    assert_eq!(escrow.status, EscrowStatus::Pending);
}

#[test]
fn test_create_escrow_invalid_amount() {
    let mut contract = Contract::new();

    let depositor = Address(1);
    let beneficiary = Address(2);
    let arbiter = Address(3);
    let token = Address(4);

    let result = contract.create_escrow(depositor, beneficiary, arbiter, 0, token, 0);
    assert_eq!(result, Err(EscrowError::InsufficientFunds));
}

#[test]
fn test_create_escrow_duplicate_parties() {
    let mut contract = Contract::new();

    let addr = Address(1);
    let token = Address(4);

    let result = contract.create_escrow(addr, addr, Address(3), 1000, token, 0);
    assert_eq!(result, Err(EscrowError::InvalidSigner));
}

#[test]
fn test_fund_escrow() {
    let mut contract = Contract::new();

    let depositor = Address(1);
    let beneficiary = Address(2);
    let arbiter = Address(3);
    let token = Address(4);

    let escrow_id = contract
        .create_escrow(depositor, beneficiary, arbiter, 1000, token, 0)
        .unwrap();

    // Fund the escrow
    let result = contract.fund_escrow(&escrow_id, &depositor);
    assert!(result.is_ok());

    // Verify status changed to Funded
    let escrow = contract.get_escrow(&escrow_id).unwrap();
    assert_eq!(escrow.status, EscrowStatus::Funded);
}

#[test]
fn test_approve_release_insufficient_signers() {
    let mut contract = Contract::new();

    let depositor = Address(1);
    let beneficiary = Address(2);
    let arbiter = Address(3);
    let token = Address(4);

    let escrow_id = contract
        .create_escrow(depositor, beneficiary, arbiter, 1000, token, 0)
        .unwrap();

    // Fund the escrow
    contract.fund_escrow(&escrow_id, &depositor).unwrap();

    // First approval (not enough)
    let result = contract.approve_release(&escrow_id, &depositor, beneficiary);
    assert!(result.is_ok());

    // Escrow should still be Funded, not Released
    let escrow = contract.get_escrow(&escrow_id).unwrap();
    assert_eq!(escrow.status, EscrowStatus::Funded);
}

#[test]
fn test_approve_release_duplicate_signer() {
    let mut contract = Contract::new();

    let depositor = Address(1);
    let beneficiary = Address(2);
    let arbiter = Address(3);
    let token = Address(4);

    let escrow_id = contract
        .create_escrow(depositor, beneficiary, arbiter, 1000, token, 0)
        .unwrap();

    // Fund the escrow
    contract.fund_escrow(&escrow_id, &depositor).unwrap();

    // First approval
    contract
        .approve_release(&escrow_id, &depositor, beneficiary)
        .unwrap();

    // Same signer tries to approve again (should fail)
    let result = contract.approve_release(&escrow_id, &depositor, beneficiary);
    assert_eq!(result, Err(EscrowError::AlreadySigned));
}

#[test]
fn test_initiate_dispute() {
    let mut contract = Contract::new();

    let depositor = Address(1);
    let beneficiary = Address(2);
    let arbiter = Address(3);
    let token = Address(4);

    let escrow_id = contract
        .create_escrow(depositor, beneficiary, arbiter, 1000, token, 0)
        .unwrap();

    // Fund the escrow
    contract.fund_escrow(&escrow_id, &depositor).unwrap();

    // Depositor initiates dispute
    let reason = "Unauthorized deductions".to_string();
    let result = contract.initiate_dispute(&escrow_id, &depositor, reason.clone());
    assert!(result.is_ok());

    // Verify escrow is disputed
    let is_disputed = contract.is_escrow_disputed(&escrow_id).unwrap();
    assert!(is_disputed);

    let escrow = contract.get_escrow(&escrow_id).unwrap();
    assert_eq!(escrow.status, EscrowStatus::Disputed);
    assert_eq!(escrow.dispute_reason, Some(reason));
}

#[test]
fn test_initiate_dispute_empty_reason() {
    let mut contract = Contract::new();

    let depositor = Address(1);
    let beneficiary = Address(2);
    let arbiter = Address(3);
    let token = Address(4);

    let escrow_id = contract
        .create_escrow(depositor, beneficiary, arbiter, 1000, token, 0)
        .unwrap();

    // Fund the escrow
    contract.fund_escrow(&escrow_id, &depositor).unwrap();

    // Try to initiate dispute with empty reason
    let reason = "".to_string();
    let result = contract.initiate_dispute(&escrow_id, &depositor, reason);
    assert_eq!(result, Err(EscrowError::EmptyDisputeReason));
}

#[test]
fn test_resolve_dispute() {
    let mut contract = Contract::new();

    let depositor = Address(1);
    let beneficiary = Address(2);
    let arbiter = Address(3);
    let token = Address(4);

    let escrow_id = contract
        .create_escrow(depositor, beneficiary, arbiter, 1000, token, 0)
        .unwrap();

    // Fund and dispute
    contract.fund_escrow(&escrow_id, &depositor).unwrap();

    let reason = "Damage claim".to_string();
    contract
        .initiate_dispute(&escrow_id, &depositor, reason)
        .unwrap();

    // Arbiter resolves in favor of beneficiary
    let result = contract.resolve_dispute(&escrow_id, &arbiter, beneficiary);
    assert!(result.is_ok());

    // Verify dispute is cleared and funds released
    let is_disputed = contract.is_escrow_disputed(&escrow_id).unwrap();
    assert!(!is_disputed);

    let escrow = contract.get_escrow(&escrow_id).unwrap();
    assert_eq!(escrow.status, EscrowStatus::Released);
    assert_eq!(escrow.dispute_reason, None);
}

#[test]
fn test_resolve_dispute_non_arbiter() {
    let mut contract = Contract::new();

    let depositor = Address(1);
    let beneficiary = Address(2);
    let arbiter = Address(3);
    let token = Address(4);

    let escrow_id = contract
        .create_escrow(depositor, beneficiary, arbiter, 1000, token, 0)
        .unwrap();

    // Fund and dispute
    contract.fund_escrow(&escrow_id, &depositor).unwrap();

    let reason = "Payment issue".to_string();
    contract
        .initiate_dispute(&escrow_id, &depositor, reason)
        .unwrap();

    // Non-arbiter tries to resolve (should fail)
    let result = contract.resolve_dispute(&escrow_id, &depositor, beneficiary);
    assert_eq!(result, Err(EscrowError::NotAuthorized));
}

#[test]
fn test_get_approval_count() {
    let mut contract = Contract::new();

    let depositor = Address(1);
    let beneficiary = Address(2);
    let arbiter = Address(3);
    let token = Address(4);

    let escrow_id = contract
        .create_escrow(depositor, beneficiary, arbiter, 1000, token, 0)
        .unwrap();

    // Fund the escrow
    contract.fund_escrow(&escrow_id, &depositor).unwrap();

    // Check initial count
    let count = contract.get_approval_count(&escrow_id, &beneficiary).unwrap();
    assert_eq!(count, 0);

    // Add approval
    contract
        .approve_release(&escrow_id, &depositor, beneficiary)
        .unwrap();

    let count = contract.get_approval_count(&escrow_id, &beneficiary).unwrap();
    assert_eq!(count, 1);
}

#[test]
fn test_get_dispute_info() {
    let mut contract = Contract::new();

    let depositor = Address(1);
    let beneficiary = Address(2);
    let arbiter = Address(3);
    let token = Address(4);

    let escrow_id = contract
        .create_escrow(depositor, beneficiary, arbiter, 1000, token, 0)
        .unwrap();

    // Fund the escrow
    contract.fund_escrow(&escrow_id, &depositor).unwrap();

    // Initially no dispute
    let info = contract.get_dispute_info(&escrow_id).unwrap();
    assert_eq!(info, None);

    // Initiate dispute
    let reason = "Damage claim".to_string();
    contract
        .initiate_dispute(&escrow_id, &depositor, reason.clone())
        .unwrap();

    // Check dispute info
    let info = contract.get_dispute_info(&escrow_id).unwrap();
    assert_eq!(info, Some(reason));
}

#[test]
fn test_approve_release_on_pending_escrow() {
    let mut contract = Contract::new();

    let depositor = Address(1);
    let beneficiary = Address(2);
    let arbiter = Address(3);
    let token = Address(4);

    let escrow_id = contract
        .create_escrow(depositor, beneficiary, arbiter, 1000, token, 0)
        .unwrap();

    // Try to approve without funding first
    let result = contract.approve_release(&escrow_id, &depositor, beneficiary);
    assert_eq!(result, Err(EscrowError::InvalidState));
}

#[test]
fn test_get_nonexistent_escrow() {
    let contract = Contract::new();

    let fake_id = EscrowId { seq: 0, depositor_tag: 0, beneficiary_tag: 0, arbiter_tag: 0 };
    let result = contract.get_escrow(&fake_id);
    assert_eq!(result, Err(EscrowError::EscrowNotFound));
}
