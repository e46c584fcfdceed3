use chioma::auth::AuthGate;
use chioma::errors::RentalError;
use chioma::escrow::{EscrowError, EscrowStatus};
use chioma::types::{Address, AgreementStatus, PaymentSplit};
use chioma::Contract;

fn gate_for(actors: &[Address]) -> AuthGate {
    let mut gate = AuthGate::new();
    for a in actors {
        gate.grant(*a);
    }
    gate
}

fn funded_escrow(contract: &mut Contract) -> (chioma::escrow::EscrowId, Address, Address, Address) {
    let depositor = Address(1);
    let beneficiary = Address(2);
    let arbiter = Address(3);
    let token = Address(4);
    let id = contract
        .create_escrow(depositor, beneficiary, arbiter, 1000, token, 0)
        .unwrap();
    contract.fund_escrow(&id, &depositor).unwrap();
    (id, depositor, beneficiary, arbiter)
}

#[test]
fn quorum_release_scenario() {
    // create escrow(1000, tokenX) -> fund -> approve(depositor->beneficiary)
    // -> approve(arbiter->beneficiary) => Released, count for beneficiary 2.
    let mut contract = Contract::new();
    let (id, depositor, beneficiary, arbiter) = funded_escrow(&mut contract);

    contract.approve_release(&id, &depositor, beneficiary).unwrap();
    contract.approve_release(&id, &arbiter, beneficiary).unwrap();

    let escrow = contract.get_escrow(&id).unwrap();
    assert_eq!(escrow.status, EscrowStatus::Released);
    assert_eq!(contract.get_approval_count(&id, &beneficiary).unwrap(), 2);
}

#[test]
fn approvals_for_unchosen_target_become_inert() {
    let mut contract = Contract::new();
    let (id, depositor, beneficiary, arbiter) = funded_escrow(&mut contract);

    // One approval toward the depositor, then a quorum toward the
    // beneficiary releases the escrow.
    contract.approve_release(&id, &arbiter, depositor).unwrap();
    contract.approve_release(&id, &depositor, beneficiary).unwrap();
    contract.approve_release(&id, &beneficiary, beneficiary).unwrap();

    let escrow = contract.get_escrow(&id).unwrap();
    assert_eq!(escrow.status, EscrowStatus::Released);

    // The depositor-target approval is inert: no further approval is taken.
    let result = contract.approve_release(&id, &beneficiary, depositor);
    assert_eq!(result, Err(EscrowError::InvalidState));
    assert_eq!(contract.get_approval_count(&id, &depositor).unwrap(), 1);
}

#[test]
fn duplicate_approval_keeps_count_at_one() {
    let mut contract = Contract::new();
    let (id, depositor, beneficiary, _) = funded_escrow(&mut contract);

    contract.approve_release(&id, &depositor, beneficiary).unwrap();
    let result = contract.approve_release(&id, &depositor, beneficiary);
    assert_eq!(result, Err(EscrowError::AlreadySigned));
    assert_eq!(contract.get_approval_count(&id, &beneficiary).unwrap(), 1);
}

#[test]
fn fund_by_non_depositor_rejected() {
    let mut contract = Contract::new();
    let depositor = Address(1);
    let beneficiary = Address(2);
    let arbiter = Address(3);
    let id = contract
        .create_escrow(depositor, beneficiary, arbiter, 1000, Address(4), 0)
        .unwrap();

    let result = contract.fund_escrow(&id, &beneficiary);
    assert_eq!(result, Err(EscrowError::NotAuthorized));

    // A failed call leaves the escrow Pending; the depositor still can fund.
    assert_eq!(contract.get_escrow(&id).unwrap().status, EscrowStatus::Pending);
    contract.fund_escrow(&id, &depositor).unwrap();

    // Funding twice is refused: the escrow is no longer Pending.
    let result = contract.fund_escrow(&id, &depositor);
    assert_eq!(result, Err(EscrowError::InvalidState));
}

#[test]
fn approve_by_outsider_rejected() {
    let mut contract = Contract::new();
    let (id, _, beneficiary, _) = funded_escrow(&mut contract);

    let outsider = Address(9);
    let result = contract.approve_release(&id, &outsider, beneficiary);
    assert_eq!(result, Err(EscrowError::NotAuthorized));
}

#[test]
fn release_target_must_be_primary_party() {
    let mut contract = Contract::new();
    let (id, depositor, _, arbiter) = funded_escrow(&mut contract);

    // The arbiter may approve, but never receive the funds.
    let result = contract.approve_release(&id, &depositor, arbiter);
    assert_eq!(result, Err(EscrowError::InvalidSigner));
}

#[test]
fn arbiter_cannot_initiate_dispute() {
    let mut contract = Contract::new();
    let (id, _, _, arbiter) = funded_escrow(&mut contract);

    let result = contract.initiate_dispute(&id, &arbiter, "Concerns".to_string());
    assert_eq!(result, Err(EscrowError::NotAuthorized));
}

#[test]
fn dispute_requires_funded_escrow() {
    let mut contract = Contract::new();
    let depositor = Address(1);
    let id = contract
        .create_escrow(depositor, Address(2), Address(3), 1000, Address(4), 0)
        .unwrap();

    let result = contract.initiate_dispute(&id, &depositor, "Too early".to_string());
    assert_eq!(result, Err(EscrowError::InvalidState));
}

#[test]
fn resolve_requires_disputed_escrow() {
    let mut contract = Contract::new();
    let (id, depositor, _, arbiter) = funded_escrow(&mut contract);

    let result = contract.resolve_dispute(&id, &arbiter, depositor);
    assert_eq!(result, Err(EscrowError::InvalidState));
}

#[test]
fn refund_outcome_releases_to_depositor() {
    let mut contract = Contract::new();
    let (id, depositor, _, arbiter) = funded_escrow(&mut contract);

    contract
        .initiate_dispute(&id, &depositor, "Work never done".to_string())
        .unwrap();
    contract.resolve_dispute(&id, &arbiter, depositor).unwrap();

    let escrow = contract.get_escrow(&id).unwrap();
    assert_eq!(escrow.status, EscrowStatus::Released);
    assert_eq!(escrow.dispute_reason, None);
}

#[test]
fn payment_split_exact_values() {
    let mut contract = Contract::new();
    let tenant = Address(1);
    let landlord = Address(2);
    let gate = gate_for(&[tenant]);

    let agreement_id = "SPLIT_001".to_string();
    contract
        .create_agreement(
            &gate,
            agreement_id.clone(),
            landlord,
            tenant,
            Some(Address(3)),
            1000,
            2000,
            100,
            1000000,
            10, // ten percent to the agent
            Address(5),
        )
        .unwrap();

    // Not yet Active
    let result = contract.get_payment_split(&agreement_id, 1);
    assert_eq!(result, Err(RentalError::AgreementNotActive));

    // Move to Pending administratively, then sign
    let mut agreement = contract.get_agreement(&agreement_id).unwrap();
    agreement.status = AgreementStatus::Pending;
    contract.set_agreement(agreement);
    contract
        .sign_agreement(&gate, tenant, agreement_id.clone(), 150)
        .unwrap();

    let split = contract.get_payment_split(&agreement_id, 1).unwrap();
    assert_eq!(split, PaymentSplit { landlord_share: 900, agent_share: 100 });
}

#[test]
fn payment_split_rounds_down() {
    let mut contract = Contract::new();
    let tenant = Address(1);
    let landlord = Address(2);
    let gate = gate_for(&[tenant]);

    let agreement_id = "SPLIT_002".to_string();
    contract
        .create_agreement(
            &gate,
            agreement_id.clone(),
            landlord,
            tenant,
            Some(Address(3)),
            999,
            0,
            100,
            1000000,
            10,
            Address(5),
        )
        .unwrap();
    let mut agreement = contract.get_agreement(&agreement_id).unwrap();
    agreement.status = AgreementStatus::Pending;
    contract.set_agreement(agreement);
    contract
        .sign_agreement(&gate, tenant, agreement_id.clone(), 150)
        .unwrap();

    // 999 * 10 / 100 = 99, remainder to the landlord
    let split = contract.get_payment_split(&agreement_id, 1).unwrap();
    assert_eq!(split, PaymentSplit { landlord_share: 900, agent_share: 99 });
}

#[test]
fn payment_split_unknown_agreement() {
    let contract = Contract::new();
    let result = contract.get_payment_split(&"NOWHERE".to_string(), 1);
    assert_eq!(result, Err(RentalError::AgreementNotFound));
}

#[test]
fn negative_deposit_rejected() {
    let mut contract = Contract::new();
    let tenant = Address(1);
    let gate = gate_for(&[tenant]);

    let result = contract.create_agreement(
        &gate,
        "BAD_DEPOSIT".to_string(),
        Address(2),
        tenant,
        None,
        1000,
        -1,
        100,
        200,
        0,
        Address(5),
    );
    assert_eq!(result, Err(RentalError::InvalidAmount));
}

#[test]
fn validation_order_first_failure_wins() {
    // Everything is wrong at once; the amount check answers first.
    let r = Contract::validate_agreement_params(&0, &-1, &200, &100, &101);
    assert_eq!(r, Err(RentalError::InvalidAmount));
    // With amounts fine, the date check answers next.
    let r = Contract::validate_agreement_params(&1, &0, &200, &100, &101);
    assert_eq!(r, Err(RentalError::InvalidDate));
    // With dates fine too, the commission bound answers.
    let r = Contract::validate_agreement_params(&1, &0, &100, &200, &101);
    assert_eq!(r, Err(RentalError::InvalidCommissionRate));
    // The boundary rate passes.
    let r = Contract::validate_agreement_params(&1, &0, &100, &200, &100);
    assert_eq!(r, Ok(()));
}

#[test]
fn require_actor_answers_for_the_gate() {
    let actor = Address(7);
    let stranger = Address(8);
    let gate = gate_for(&[actor]);
    assert!(gate.require_actor(&actor).is_ok());
    assert!(gate.require_actor(&stranger).is_err());
}

#[test]
fn failed_creation_leaves_store_untouched() {
    let mut contract = Contract::new();
    let tenant = Address(1);
    let gate = gate_for(&[tenant]);

    let agreement_id = "NEVER_STORED".to_string();
    let result = contract.create_agreement(
        &gate,
        agreement_id.clone(),
        Address(2),
        tenant,
        None,
        0, // nothing to pay: refused before any write
        0,
        100,
        200,
        0,
        Address(5),
    );
    assert_eq!(result, Err(RentalError::InvalidAmount));
    assert_eq!(contract.get_agreement_count(), 0);
    assert!(!contract.has_agreement(&agreement_id));
    assert_eq!(contract.events.len(), 0);
}

#[test]
fn empty_reason_leaves_status_unchanged() {
    let mut contract = Contract::new();
    let (id, depositor, _, _) = funded_escrow(&mut contract);

    let result = contract.initiate_dispute(&id, &depositor, "".to_string());
    assert_eq!(result, Err(EscrowError::EmptyDisputeReason));
    assert_eq!(contract.get_escrow(&id).unwrap().status, EscrowStatus::Funded);
    assert!(!contract.is_escrow_disputed(&id).unwrap());
}

#[test]
fn created_agreement_is_draft_and_unsigned() {
    let mut contract = Contract::new();
    let tenant = Address(1);
    let gate = gate_for(&[tenant]);

    let agreement_id = "FRESH_001".to_string();
    contract
        .create_agreement(
            &gate,
            agreement_id.clone(),
            Address(2),
            tenant,
            None,
            1,
            0,
            0,
            1,
            0,
            Address(5),
        )
        .unwrap();

    let agreement = contract.get_agreement(&agreement_id).unwrap();
    assert_eq!(agreement.status, AgreementStatus::Draft);
    assert_eq!(agreement.signed_at, None);
}
