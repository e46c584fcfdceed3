use chioma::auth::AuthGate;
use chioma::errors::RentalError;
use chioma::events::ContractEvent;
use chioma::types::{Address, AgreementStatus};
use chioma::Contract;

fn gate_for(actors: &[Address]) -> AuthGate {
    let mut gate = AuthGate::new();
    for a in actors {
        gate.grant(*a);
    }
    gate
}

#[test]
fn test() {
    let words = Contract::hello("Dev".to_string());
    assert_eq!(words, vec!["Hello".to_string(), "Dev".to_string()]);
}

#[test]
fn test_test_create_agreement_success() {
    let mut contract = Contract::new();

    let tenant = Address(1);
    let landlord = Address(2);
    let agent = Some(Address(3));
    let token = Address(4);
    let gate = gate_for(&[tenant]);

    let agreement_id = "AGREEMENT_001".to_string();

    contract
        .create_agreement(
            &gate,
            agreement_id.clone(),
            landlord,
            tenant,
            agent,
            1000, // monthly_rent
            2000, // security_deposit
            100,  // start_date
            200,  // end_date
            10,   // agent_commission_rate
            token,
        )
        .unwrap();

    // Check the notification log
    assert_eq!(contract.events.len(), 1);
    let event = contract.events.last().unwrap();
    match event {
        ContractEvent::Created(e) => assert_eq!(e.agreement_id, agreement_id),
        _ => panic!("expected a creation notification"),
    }

    // Verify persistence
    let stored_agreement = contract.get_agreement(&agreement_id).unwrap();

    assert_eq!(stored_agreement.agreement_id, agreement_id);
    assert_eq!(stored_agreement.monthly_rent, 1000);
    assert_eq!(stored_agreement.status, AgreementStatus::Draft);
    assert_eq!(stored_agreement.landlord, landlord);
    assert_eq!(stored_agreement.tenant, tenant);

    // Verify counter
    assert_eq!(contract.get_agreement_count(), 1);
}

#[test]
fn test_test_create_agreement_with_agent() {
    let mut contract = Contract::new();

    let tenant = Address(1);
    let landlord = Address(2);
    let agent = Address(3);
    let gate = gate_for(&[tenant]);

    let agreement_id = "AGREEMENT_WITH_AGENT".to_string();

    contract
        .create_agreement(
            &gate,
            agreement_id,
            landlord,
            tenant,
            Some(agent),
            1500,
            3000,
            1000,
            2000,
            5,
            Address(4),
        )
        .unwrap();
}

#[test]
fn test_test_create_agreement_without_agent() {
    let mut contract = Contract::new();

    let tenant = Address(1);
    let landlord = Address(2);
    let gate = gate_for(&[tenant]);

    let agreement_id = "AGREEMENT_NO_AGENT".to_string();

    contract
        .create_agreement(
            &gate,
            agreement_id,
            landlord,
            tenant,
            None,
            1200,
            2400,
            500,
            1500,
            0,
            Address(4),
        )
        .unwrap();
}

#[test]
fn test_test_negative_rent_rejected() {
    let mut contract = Contract::new();

    let tenant = Address(1);
    let landlord = Address(2);
    let gate = gate_for(&[tenant]);

    let agreement_id = "BAD_RENT".to_string();

    let result = contract.create_agreement(
        &gate,
        agreement_id,
        landlord,
        tenant,
        None,
        -100, // Negative rent
        1000,
        100,
        200,
        0,
        Address(4),
    );
    assert_eq!(result, Err(RentalError::InvalidAmount));
}

#[test]
fn test_test_invalid_dates_rejected() {
    let mut contract = Contract::new();

    let tenant = Address(1);
    let landlord = Address(2);
    let gate = gate_for(&[tenant]);

    let agreement_id = "BAD_DATES".to_string();

    let result = contract.create_agreement(
        &gate,
        agreement_id,
        landlord,
        tenant,
        None,
        1000,
        2000,
        200, // start_date
        100, // end_date < start_date
        0,
        Address(4),
    );
    assert_eq!(result, Err(RentalError::InvalidDate));
}

#[test]
fn test_test_duplicate_agreement_id() {
    let mut contract = Contract::new();

    let tenant = Address(1);
    let landlord = Address(2);
    let gate = gate_for(&[tenant]);

    let agreement_id = "DUPLICATE_ID".to_string();

    contract
        .create_agreement(
            &gate,
            agreement_id.clone(),
            landlord,
            tenant,
            None,
            1000,
            2000,
            100,
            200,
            0,
            Address(4),
        )
        .unwrap();

    // Try to create again with same ID
    let result = contract.create_agreement(
        &gate,
        agreement_id.clone(),
        landlord,
        tenant,
        None,
        1000,
        2000,
        100,
        200,
        0,
        Address(4),
    );
    assert_eq!(result, Err(RentalError::AgreementAlreadyExists));

    // The store keeps only the first record
    assert_eq!(contract.get_agreement_count(), 1);
    assert!(contract.has_agreement(&agreement_id));
}

#[test]
fn test_test_invalid_commission_rate() {
    let mut contract = Contract::new();

    let tenant = Address(1);
    let landlord = Address(2);
    let gate = gate_for(&[tenant]);

    let agreement_id = "BAD_COMMISSION".to_string();

    let result = contract.create_agreement(
        &gate,
        agreement_id,
        landlord,
        tenant,
        None,
        1000,
        2000,
        100,
        200,
        101, // > 100
        Address(4),
    );
    assert_eq!(result, Err(RentalError::InvalidCommissionRate));
}
