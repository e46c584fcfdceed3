use chioma::escrow::{AccessControl, Escrow, EscrowId, EscrowStatus};
use chioma::types::Address;
use chioma::Contract;

fn create_test_escrow() -> (Escrow, Address, Address, Address) {
    let depositor = Address(1);
    let beneficiary = Address(2);
    let arbiter = Address(3);
    let token = Address(4);

    let escrow = Escrow {
        id: EscrowId {
            seq: 0x0101010101010101,
            depositor_tag: 0x0101010101010101,
            beneficiary_tag: 0x0101010101010101,
            arbiter_tag: 0x0101010101010101,
        },
        depositor,
        beneficiary,
        arbiter,
        amount: 1000,
        token,
        status: EscrowStatus::Funded,
        created_at: 0,
        dispute_reason: None,
    };

    (escrow, depositor, beneficiary, arbiter)
}

#[test]
fn test_escrow_status_ordering() {
    assert!(EscrowStatus::Pending < EscrowStatus::Funded);
    assert!(EscrowStatus::Funded < EscrowStatus::Released);
}

#[test]
fn test_is_depositor() {
    let (escrow, depositor, _, _) = create_test_escrow();
    assert!(AccessControl::is_depositor(&escrow, &depositor).is_ok());

    let other = Address(9);
    assert!(AccessControl::is_depositor(&escrow, &other).is_err());
}

#[test]
fn test_is_beneficiary() {
    let (escrow, _, beneficiary, _) = create_test_escrow();
    assert!(AccessControl::is_beneficiary(&escrow, &beneficiary).is_ok());

    let other = Address(9);
    assert!(AccessControl::is_beneficiary(&escrow, &other).is_err());
}

#[test]
fn test_is_arbiter() {
    let (escrow, _, _, arbiter) = create_test_escrow();
    assert!(AccessControl::is_arbiter(&escrow, &arbiter).is_ok());

    let other = Address(9);
    assert!(AccessControl::is_arbiter(&escrow, &other).is_err());
}

#[test]
fn test_is_party() {
    let (escrow, depositor, beneficiary, arbiter) = create_test_escrow();

    assert!(AccessControl::is_party(&escrow, &depositor).is_ok());
    assert!(AccessControl::is_party(&escrow, &beneficiary).is_ok());
    assert!(AccessControl::is_party(&escrow, &arbiter).is_ok());

    let other = Address(9);
    assert!(AccessControl::is_party(&escrow, &other).is_err());
}

#[test]
fn test_is_primary_party() {
    let (escrow, depositor, beneficiary, arbiter) = create_test_escrow();

    assert!(AccessControl::is_primary_party(&escrow, &depositor).is_ok());
    assert!(AccessControl::is_primary_party(&escrow, &beneficiary).is_ok());
    // Arbiter is NOT a primary party
    assert!(AccessControl::is_primary_party(&escrow, &arbiter).is_err());

    let other = Address(9);
    assert!(AccessControl::is_primary_party(&escrow, &other).is_err());
}

#[test]
fn test_unique_escrow_ids() {
    let mut contract = Contract::new();

    let depositor = Address(1);
    let beneficiary = Address(2);
    let arbiter = Address(3);
    let token = Address(4);

    let escrow_id1 = contract
        .create_escrow(depositor, beneficiary, arbiter, 1000, token, 0)
        .unwrap();

    // A later sequence point, even with identical parameters
    let escrow_id2 = contract
        .create_escrow(depositor, beneficiary, arbiter, 1000, token, 1)
        .unwrap();

    assert_ne!(escrow_id1, escrow_id2, "Escrow IDs should be unique");

    let escrow1 = contract.get_escrow(&escrow_id1).unwrap();
    let escrow2 = contract.get_escrow(&escrow_id2).unwrap();

    assert_eq!(escrow1.id, escrow_id1);
    assert_eq!(escrow2.id, escrow_id2);
    assert_eq!(escrow1.amount, 1000);
    assert_eq!(escrow2.amount, 1000);
}
