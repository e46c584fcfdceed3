use vstd::prelude::*;
use crate::errors::RentalError;
use crate::escrow::{approval_count, has_approved, lemma_approval_count_push, ApprovalRecord, EscrowError, EscrowId};
use crate::model::ContractModel;
use crate::release::{approve_release_spec, create_escrow_spec, escrow_id_of, fund_escrow_spec, initiate_dispute_spec, resolve_dispute_spec};
use crate::rental::{create_agreement_spec, fresh_agreement, sign_agreement_spec, validate_params_spec};
use crate::types::{Address, AgreementStatus};

verus! {

// What the state machines promise, written out and proved once and for
// all from the transition relations that the executable operations are
// verified against.

/// Creating an agreement from valid parameters under a fresh identifier
/// succeeds, and what a lookup then returns is the stored record: Draft and
/// unsigned.
pub proof fn lemma_created_agreement_is_draft(
    m: ContractModel,
    agreement_id: Seq<char>,
    landlord: Address,
    tenant: Address,
    agent: Option<Address>,
    monthly_rent: i128,
    security_deposit: i128,
    start_date: u64,
    end_date: u64,
    agent_commission_rate: u32,
    payment_token: Address,
)
    requires
        validate_params_spec(
            monthly_rent,
            security_deposit,
            start_date,
            end_date,
            agent_commission_rate,
        ) is Ok,
        !m.agreements.dom().contains(agreement_id),
    ensures
        ({
            let (m1, r) = create_agreement_spec(
                m,
                agreement_id,
                landlord,
                tenant,
                agent,
                monthly_rent,
                security_deposit,
                start_date,
                end_date,
                agent_commission_rate,
                payment_token,
            );
            &&& r == Ok::<(), RentalError>(())
            &&& m1.agreement_lookup(agreement_id) == Some(
                fresh_agreement(
                    agreement_id,
                    landlord,
                    tenant,
                    agent,
                    monthly_rent,
                    security_deposit,
                    start_date,
                    end_date,
                    agent_commission_rate,
                    payment_token,
                ),
            )
            &&& m1.agreements[agreement_id].status is Draft
            &&& m1.agreements[agreement_id].signed_at is None
        }),
{
}

/// A non-positive monthly rent is always refused as InvalidAmount, and the
/// state — the agreement count included — is untouched.
pub proof fn lemma_nonpositive_rent_rejected(
    m: ContractModel,
    agreement_id: Seq<char>,
    landlord: Address,
    tenant: Address,
    agent: Option<Address>,
    monthly_rent: i128,
    security_deposit: i128,
    start_date: u64,
    end_date: u64,
    agent_commission_rate: u32,
    payment_token: Address,
)
    requires
        monthly_rent <= 0,
    ensures
        create_agreement_spec(
            m,
            agreement_id,
            landlord,
            tenant,
            agent,
            monthly_rent,
            security_deposit,
            start_date,
            end_date,
            agent_commission_rate,
            payment_token,
        ) == (m, Err::<(), RentalError>(RentalError::InvalidAmount)),
{
}

/// Dates out of order are always refused as InvalidDate once the amounts
/// pass, and the state is untouched.
pub proof fn lemma_misordered_dates_rejected(
    m: ContractModel,
    agreement_id: Seq<char>,
    landlord: Address,
    tenant: Address,
    agent: Option<Address>,
    monthly_rent: i128,
    security_deposit: i128,
    start_date: u64,
    end_date: u64,
    agent_commission_rate: u32,
    payment_token: Address,
)
    requires
        monthly_rent > 0,
        security_deposit >= 0,
        start_date >= end_date,
    ensures
        create_agreement_spec(
            m,
            agreement_id,
            landlord,
            tenant,
            agent,
            monthly_rent,
            security_deposit,
            start_date,
            end_date,
            agent_commission_rate,
            payment_token,
        ) == (m, Err::<(), RentalError>(RentalError::InvalidDate)),
{
}

/// A commission rate above 100 percent is always refused as
/// InvalidCommissionRate once amounts and dates pass, and the state is
/// untouched.
pub proof fn lemma_excessive_commission_rejected(
    m: ContractModel,
    agreement_id: Seq<char>,
    landlord: Address,
    tenant: Address,
    agent: Option<Address>,
    monthly_rent: i128,
    security_deposit: i128,
    start_date: u64,
    end_date: u64,
    agent_commission_rate: u32,
    payment_token: Address,
)
    requires
        monthly_rent > 0,
        security_deposit >= 0,
        start_date < end_date,
        agent_commission_rate > 100,
    ensures
        create_agreement_spec(
            m,
            agreement_id,
            landlord,
            tenant,
            agent,
            monthly_rent,
            security_deposit,
            start_date,
            end_date,
            agent_commission_rate,
            payment_token,
        ) == (m, Err::<(), RentalError>(RentalError::InvalidCommissionRate)),
{
}

/// Once an identifier is taken, a second creation under it — with any
/// parameters that pass validation — fails AgreementAlreadyExists, and the
/// store keeps the first record.
pub proof fn lemma_duplicate_agreement_rejected(
    m: ContractModel,
    agreement_id: Seq<char>,
    landlord: Address,
    tenant: Address,
    agent: Option<Address>,
    monthly_rent: i128,
    security_deposit: i128,
    start_date: u64,
    end_date: u64,
    agent_commission_rate: u32,
    payment_token: Address,
    landlord2: Address,
    tenant2: Address,
    agent2: Option<Address>,
    monthly_rent2: i128,
    security_deposit2: i128,
    start_date2: u64,
    end_date2: u64,
    agent_commission_rate2: u32,
    payment_token2: Address,
)
    requires
        create_agreement_spec(
            m,
            agreement_id,
            landlord,
            tenant,
            agent,
            monthly_rent,
            security_deposit,
            start_date,
            end_date,
            agent_commission_rate,
            payment_token,
        ).1 is Ok,
        validate_params_spec(
            monthly_rent2,
            security_deposit2,
            start_date2,
            end_date2,
            agent_commission_rate2,
        ) is Ok,
    ensures
        ({
            let m1 = create_agreement_spec(
                m,
                agreement_id,
                landlord,
                tenant,
                agent,
                monthly_rent,
                security_deposit,
                start_date,
                end_date,
                agent_commission_rate,
                payment_token,
            ).0;
            &&& create_agreement_spec(
                m1,
                agreement_id,
                landlord2,
                tenant2,
                agent2,
                monthly_rent2,
                security_deposit2,
                start_date2,
                end_date2,
                agent_commission_rate2,
                payment_token2,
            ) == (m1, Err::<(), RentalError>(RentalError::AgreementAlreadyExists))
            &&& m1.agreement_lookup(agreement_id) == Some(
                fresh_agreement(
                    agreement_id,
                    landlord,
                    tenant,
                    agent,
                    monthly_rent,
                    security_deposit,
                    start_date,
                    end_date,
                    agent_commission_rate,
                    payment_token,
                ),
            )
        }),
{
}

/// The correct tenant signs a Pending agreement before its end date: it
/// becomes Active with the signing time recorded, and signing is not
/// repeatable — a second attempt, at any time, fails InvalidState and
/// changes nothing.
pub proof fn lemma_sign_agreement_once(
    m: ContractModel,
    tenant: Address,
    agreement_id: Seq<char>,
    now: u64,
    later: u64,
)
    requires
        m.agreements.dom().contains(agreement_id),
        m.agreements[agreement_id].tenant == tenant,
        m.agreements[agreement_id].status is Pending,
        now <= m.agreements[agreement_id].end_date,
    ensures
        ({
            let (m1, r) = sign_agreement_spec(m, tenant, agreement_id, now);
            &&& r == Ok::<(), RentalError>(())
            &&& m1.agreements[agreement_id].status is Active
            &&& m1.agreements[agreement_id].signed_at == Some(now)
            &&& sign_agreement_spec(m1, tenant, agreement_id, later) == (
                m1,
                Err::<(), RentalError>(RentalError::InvalidState),
            )
        }),
{
}

/// Anybody but the stored tenant is refused as NotTenant, and the record
/// is untouched.
pub proof fn lemma_sign_by_non_tenant_rejected(
    m: ContractModel,
    claimed: Address,
    agreement_id: Seq<char>,
    now: u64,
)
    requires
        m.agreements.dom().contains(agreement_id),
        m.agreements[agreement_id].tenant != claimed,
    ensures
        sign_agreement_spec(m, claimed, agreement_id, now) == (
            m,
            Err::<(), RentalError>(RentalError::NotTenant),
        ),
{
}

/// Signing after the end date is refused as Expired, and the record is
/// untouched.
pub proof fn lemma_sign_after_end_rejected(
    m: ContractModel,
    tenant: Address,
    agreement_id: Seq<char>,
    now: u64,
)
    requires
        m.agreements.dom().contains(agreement_id),
        m.agreements[agreement_id].tenant == tenant,
        m.agreements[agreement_id].status is Pending,
        now > m.agreements[agreement_id].end_date,
    ensures
        sign_agreement_spec(m, tenant, agreement_id, now) == (
            m,
            Err::<(), RentalError>(RentalError::Expired),
        ),
{
}

/// An escrow over nothing is refused as InsufficientFunds, and — once the
/// amount passes — a depositor who is their own beneficiary is refused as
/// InvalidSigner. Either way the state is untouched.
pub proof fn lemma_escrow_creation_rejections(
    m: ContractModel,
    depositor: Address,
    beneficiary: Address,
    arbiter: Address,
    amount: i128,
    token: Address,
    now: u64,
)
    ensures
        amount <= 0 ==> create_escrow_spec(m, depositor, beneficiary, arbiter, amount, token, now)
            == (m, Err::<EscrowId, EscrowError>(EscrowError::InsufficientFunds)),
        amount > 0 && depositor == beneficiary ==> create_escrow_spec(
            m,
            depositor,
            beneficiary,
            arbiter,
            amount,
            token,
            now,
        ) == (m, Err::<EscrowId, EscrowError>(EscrowError::InvalidSigner)),
{
}

/// Funding moves Pending to Funded exactly when the depositor asks for it:
/// any other caller fails NotAuthorized, any other state fails
/// InvalidState, and a failed call changes nothing.
pub proof fn lemma_fund_escrow_rules(m: ContractModel, id: EscrowId, caller: Address)
    requires
        m.escrows.dom().contains(id),
    ensures
        caller != m.escrows[id].depositor ==> fund_escrow_spec(m, id, caller) == (
            m,
            Err::<(), EscrowError>(EscrowError::NotAuthorized),
        ),
        caller == m.escrows[id].depositor && !(m.escrows[id].status is Pending)
            ==> fund_escrow_spec(m, id, caller) == (
            m,
            Err::<(), EscrowError>(EscrowError::InvalidState),
        ),
        caller == m.escrows[id].depositor && m.escrows[id].status is Pending ==> ({
            let (m1, r) = fund_escrow_spec(m, id, caller);
            &&& r == Ok::<(), EscrowError>(())
            &&& m1.escrows[id].status is Funded
        }),
{
}

/// A recorded approval cannot be repeated: the same signer approving the
/// same target a second time fails AlreadySigned, and the count for that
/// target stays at one.
pub proof fn lemma_approve_twice_already_signed(
    m: ContractModel,
    id: EscrowId,
    caller: Address,
    release_to: Address,
)
    requires
        m.inv(),
        approval_count(m.approvals, id, release_to) == 0,
        approve_release_spec(m, id, caller, release_to).1 is Ok,
    ensures
        ({
            let m1 = approve_release_spec(m, id, caller, release_to).0;
            &&& approval_count(m1.approvals, id, release_to) == 1
            &&& approve_release_spec(m1, id, caller, release_to) == (
                m1,
                Err::<(), EscrowError>(EscrowError::AlreadySigned),
            )
        }),
{
    let rec = ApprovalRecord { escrow: id, release_to, signer: caller };
    let m1 = approve_release_spec(m, id, caller, release_to).0;
    lemma_approval_count_push(m.approvals, rec, id, release_to);
    assert(m1.approvals == m.approvals.push(rec));
    assert(m1.approvals[m.approvals.len() as int] == rec);
    assert(has_approved(m1.approvals, id, release_to, caller));
}

/// Two distinct approvers of the same target release the escrow, and from
/// then on every further approval — toward either target — fails
/// InvalidState: approvals toward the unchosen target are inert.
pub proof fn lemma_quorum_releases(
    m: ContractModel,
    id: EscrowId,
    caller: Address,
    release_to: Address,
)
    requires
        m.inv(),
        m.escrows.dom().contains(id),
        m.escrows[id].status is Funded,
        m.escrows[id].is_party(caller),
        m.escrows[id].is_primary_party(release_to),
        !has_approved(m.approvals, id, release_to, caller),
        approval_count(m.approvals, id, release_to) == 1,
    ensures
        ({
            let (m1, r) = approve_release_spec(m, id, caller, release_to);
            &&& r == Ok::<(), EscrowError>(())
            &&& m1.escrows[id].status is Released
            &&& approval_count(m1.approvals, id, release_to) == 2
            &&& forall|c2: Address, t2: Address|
                #[trigger] approve_release_spec(m1, id, c2, t2) == (
                    m1,
                    Err::<(), EscrowError>(EscrowError::InvalidState),
                )
        }),
{
    let rec = ApprovalRecord { escrow: id, release_to, signer: caller };
    lemma_approval_count_push(m.approvals, rec, id, release_to);
}

/// An escrow that is not Funded — fresh from creation, already Released,
/// or under dispute — takes no approvals: the call fails InvalidState and
/// changes nothing.
pub proof fn lemma_approve_requires_funded(
    m: ContractModel,
    id: EscrowId,
    caller: Address,
    release_to: Address,
)
    requires
        m.escrows.dom().contains(id),
        !(m.escrows[id].status is Funded),
    ensures
        approve_release_spec(m, id, caller, release_to) == (
            m,
            Err::<(), EscrowError>(EscrowError::InvalidState),
        ),
{
}

/// An empty dispute reason is refused as EmptyDisputeReason, and the
/// escrow — its status in particular — is untouched.
pub proof fn lemma_empty_dispute_reason_rejected(
    m: ContractModel,
    id: EscrowId,
    caller: Address,
    reason: Seq<char>,
)
    requires
        m.escrows.dom().contains(id),
        m.escrows[id].status is Funded,
        m.escrows[id].is_primary_party(caller),
        reason.len() == 0,
    ensures
        initiate_dispute_spec(m, id, caller, reason) == (
            m,
            Err::<(), EscrowError>(EscrowError::EmptyDisputeReason),
        ),
{
}

/// Only the arbiter settles a dispute: anybody else fails NotAuthorized
/// with nothing changed, while the arbiter moves Disputed to Released and
/// clears the dispute reason.
pub proof fn lemma_resolve_dispute_rules(
    m: ContractModel,
    id: EscrowId,
    caller: Address,
    release_to: Address,
)
    requires
        m.escrows.dom().contains(id),
        m.escrows[id].status is Disputed,
    ensures
        caller != m.escrows[id].arbiter ==> resolve_dispute_spec(m, id, caller, release_to) == (
            m,
            Err::<(), EscrowError>(EscrowError::NotAuthorized),
        ),
        caller == m.escrows[id].arbiter ==> ({
            let (m1, r) = resolve_dispute_spec(m, id, caller, release_to);
            &&& r == Ok::<(), EscrowError>(())
            &&& m1.escrows[id].status is Released
            &&& m1.escrows[id].dispute_reason is None
        }),
{
}

/// Two creations, even with identical parties, amount and token, receive
/// distinct handles: the sequence number advances between them.
pub proof fn lemma_escrow_ids_distinct(
    m: ContractModel,
    depositor: Address,
    beneficiary: Address,
    arbiter: Address,
    amount: i128,
    token: Address,
    now: u64,
    now2: u64,
)
    requires
        m.next_seq < u64::MAX,
        create_escrow_spec(m, depositor, beneficiary, arbiter, amount, token, now).1 is Ok,
    ensures
        ({
            let (m1, r1) = create_escrow_spec(m, depositor, beneficiary, arbiter, amount, token, now);
            let (m2, r2) = create_escrow_spec(
                m1,
                depositor,
                beneficiary,
                arbiter,
                amount,
                token,
                now2,
            );
            &&& r2 is Ok
            &&& r1->Ok_0 != r2->Ok_0
        }),
{
    assert(escrow_id_of(m.next_seq, depositor, beneficiary, arbiter).seq == m.next_seq);
}

/// Every failing rental operation is a no-op on stored state: validation
/// runs to completion before the first write, never interleaved with it.
pub proof fn lemma_rental_failures_change_nothing(
    m: ContractModel,
    agreement_id: Seq<char>,
    landlord: Address,
    tenant: Address,
    agent: Option<Address>,
    monthly_rent: i128,
    security_deposit: i128,
    start_date: u64,
    end_date: u64,
    agent_commission_rate: u32,
    payment_token: Address,
    now: u64,
)
    ensures
        create_agreement_spec(
            m,
            agreement_id,
            landlord,
            tenant,
            agent,
            monthly_rent,
            security_deposit,
            start_date,
            end_date,
            agent_commission_rate,
            payment_token,
        ).1 is Err ==> create_agreement_spec(
            m,
            agreement_id,
            landlord,
            tenant,
            agent,
            monthly_rent,
            security_deposit,
            start_date,
            end_date,
            agent_commission_rate,
            payment_token,
        ).0 == m,
        sign_agreement_spec(m, tenant, agreement_id, now).1 is Err ==> sign_agreement_spec(
            m,
            tenant,
            agreement_id,
            now,
        ).0 == m,
{
}

/// Every failing escrow operation is a no-op on stored state.
pub proof fn lemma_escrow_failures_change_nothing(
    m: ContractModel,
    id: EscrowId,
    caller: Address,
    release_to: Address,
    reason: Seq<char>,
    depositor: Address,
    beneficiary: Address,
    arbiter: Address,
    amount: i128,
    token: Address,
    now: u64,
)
    ensures
        create_escrow_spec(m, depositor, beneficiary, arbiter, amount, token, now).1 is Err
            ==> create_escrow_spec(m, depositor, beneficiary, arbiter, amount, token, now).0 == m,
        fund_escrow_spec(m, id, caller).1 is Err ==> fund_escrow_spec(m, id, caller).0 == m,
        approve_release_spec(m, id, caller, release_to).1 is Err ==> approve_release_spec(
            m,
            id,
            caller,
            release_to,
        ).0 == m,
        initiate_dispute_spec(m, id, caller, reason).1 is Err ==> initiate_dispute_spec(
            m,
            id,
            caller,
            reason,
        ).0 == m,
        resolve_dispute_spec(m, id, caller, release_to).1 is Err ==> resolve_dispute_spec(
            m,
            id,
            caller,
            release_to,
        ).0 == m,
{
}

/// In every reachable state, an agreement carries a signing timestamp
/// exactly when it is Active, and an escrow carries a dispute reason —
/// always non-empty — exactly while it is Disputed.
pub proof fn lemma_record_invariants(m: ContractModel, agreement_id: Seq<char>, id: EscrowId)
    requires
        m.inv(),
    ensures
        m.agreements.dom().contains(agreement_id) ==> (
        m.agreements[agreement_id].signed_at is Some <==> m.agreements[agreement_id].status
            is Active),
        m.escrows.dom().contains(id) ==> (m.escrows[id].dispute_reason is Some <==> m.escrows[id].status is Disputed),
        m.escrows.dom().contains(id) && m.escrows[id].dispute_reason is Some
            ==> m.escrows[id].dispute_reason->0.len() > 0,
{
}

} // verus!
