use vstd::prelude::*;
use vstd::arithmetic::div_mod::{
    lemma_div_by_multiple,
    lemma_div_is_ordered,
    lemma_div_pos_is_pos,
    lemma_fundamental_div_mod,
    lemma_hoist_over_denominator,
};
use crate::auth::AuthGate;
use crate::errors::RentalError;
use crate::events::{lemma_event_models_push, AgreementCreatedEvent, AgreementSigned, ContractEvent, EventModel};
use crate::model::ContractModel;
use crate::store::{lemma_keyed_map_chars, lemma_keyed_map_push, lemma_keyed_map_update, replace_at};
use crate::types::{Address, AgreementModel, AgreementStatus, PaymentSplit, RentAgreement};
use crate::{agreement_key, agreement_val, find_agreement_index, Contract};

verus! {

/// What parameter validation answers, with the first failure winning:
/// amounts before dates before the commission bound.
pub open spec fn validate_params_spec(
    monthly_rent: i128,
    security_deposit: i128,
    start_date: u64,
    end_date: u64,
    agent_commission_rate: u32,
) -> Result<(), RentalError> {
    if monthly_rent <= 0 || security_deposit < 0 {
        Err(RentalError::InvalidAmount)
    } else if start_date >= end_date {
        Err(RentalError::InvalidDate)
    } else if agent_commission_rate > 100 {
        Err(RentalError::InvalidCommissionRate)
    } else {
        Ok(())
    }
}

/// The record a successful creation stores: Draft and unsigned.
pub open spec fn fresh_agreement(
    agreement_id: Seq<char>,
    landlord: Address,
    tenant: Address,
    agent: Option<Address>,
    monthly_rent: i128,
    security_deposit: i128,
    start_date: u64,
    end_date: u64,
    agent_commission_rate: u32,
    payment_token: Address,
) -> AgreementModel {
    AgreementModel {
        agreement_id,
        landlord,
        tenant,
        agent,
        monthly_rent,
        security_deposit,
        start_date,
        end_date,
        agent_commission_rate,
        payment_token,
        status: AgreementStatus::Draft,
        signed_at: None,
    }
}

/// What `create_agreement` does to the state: validation first, then the
/// duplicate check; only when both pass is the record stored, the counter
/// advanced and a creation notification logged. A failed call changes
/// nothing.
pub open spec fn create_agreement_spec(
    m: ContractModel,
    agreement_id: Seq<char>,
    landlord: Address,
    tenant: Address,
    agent: Option<Address>,
    monthly_rent: i128,
    security_deposit: i128,
    start_date: u64,
    end_date: u64,
    agent_commission_rate: u32,
    payment_token: Address,
) -> (ContractModel, Result<(), RentalError>) {
    let v = validate_params_spec(
        monthly_rent,
        security_deposit,
        start_date,
        end_date,
        agent_commission_rate,
    );
    if v is Err {
        (m, v)
    } else if m.agreements.dom().contains(agreement_id) {
        (m, Err(RentalError::AgreementAlreadyExists))
    } else {
        (
            ContractModel {
                agreements: m.agreements.insert(
                    agreement_id,
                    fresh_agreement(
                        agreement_id,
                        landlord,
                        tenant,
                        agent,
                        monthly_rent,
                        security_deposit,
                        start_date,
                        end_date,
                        agent_commission_rate,
                        payment_token,
                    ),
                ),
                agreement_count: (m.agreement_count + 1) as u32,
                events: m.events.push(EventModel::Created { agreement_id }),
                ..m
            },
            Ok(()),
        )
    }
}

/// What `sign_agreement` does to the state, with the checks in their
/// promised order — existence, then identity, then phase, then expiry — so
/// a caller can tell "doesn't exist" from "not yours" from "wrong phase"
/// from "too late". Success stamps the record Active with the signing time
/// and logs a signing notification; any failure changes nothing.
pub open spec fn sign_agreement_spec(
    m: ContractModel,
    tenant: Address,
    agreement_id: Seq<char>,
    now: u64,
) -> (ContractModel, Result<(), RentalError>) {
    if !m.agreements.dom().contains(agreement_id) {
        (m, Err(RentalError::AgreementNotFound))
    } else {
        let a = m.agreements[agreement_id];
        if a.tenant != tenant {
            (m, Err(RentalError::NotTenant))
        } else if !(a.status is Pending) {
            (m, Err(RentalError::InvalidState))
        } else if now > a.end_date {
            (m, Err(RentalError::Expired))
        } else {
            (
                ContractModel {
                    agreements: m.agreements.insert(
                        agreement_id,
                        AgreementModel {
                            status: AgreementStatus::Active,
                            signed_at: Some(now),
                            ..a
                        },
                    ),
                    events: m.events.push(
                        EventModel::Signed {
                            agreement_id,
                            landlord: a.landlord,
                            tenant: a.tenant,
                            signed_at: now,
                        },
                    ),
                    ..m
                },
                Ok(()),
            )
        }
    }
}

/// The agent's monthly share: rent times commission rate, in whole percent,
/// rounded down.
pub open spec fn agent_share_of(monthly_rent: i128, agent_commission_rate: u32) -> int {
    monthly_rent * agent_commission_rate / 100
}

/// What `get_payment_split` answers: the division of one month of rent,
/// owed only for an Active agreement.
pub open spec fn payment_split_spec(m: ContractModel, agreement_id: Seq<char>) -> Result<
    PaymentSplit,
    RentalError,
> {
    if !m.agreements.dom().contains(agreement_id) {
        Err(RentalError::AgreementNotFound)
    } else if !(m.agreements[agreement_id].status is Active) {
        Err(RentalError::AgreementNotActive)
    } else {
        let a = m.agreements[agreement_id];
        Ok(
            PaymentSplit {
                landlord_share: (a.monthly_rent - agent_share_of(
                    a.monthly_rent,
                    a.agent_commission_rate,
                )) as i128,
                agent_share: agent_share_of(a.monthly_rent, a.agent_commission_rate) as i128,
            },
        )
    }
}

impl Contract {
    /// Validation shared by agreement creation: monthly rent positive,
    /// security deposit non-negative, dates in order, commission rate at
    /// most 100 percent — the first failure wins.
    pub fn validate_agreement_params(
        monthly_rent: &i128,
        security_deposit: &i128,
        start_date: &u64,
        end_date: &u64,
        agent_commission_rate: &u32,
    ) -> (r: Result<(), RentalError>)
        ensures
            r == validate_params_spec(
                *monthly_rent,
                *security_deposit,
                *start_date,
                *end_date,
                *agent_commission_rate,
            ),
    {
        if *monthly_rent <= 0 || *security_deposit < 0 {
            return Err(RentalError::InvalidAmount);
        }
        if *start_date >= *end_date {
            return Err(RentalError::InvalidDate);
        }
        if *agent_commission_rate > 100 {
            return Err(RentalError::InvalidCommissionRate);
        }
        Ok(())
    }

    /// Create a rent agreement under a fresh identifier.
    ///
    /// The host must have authenticated the tenant before dispatching here:
    /// the tenant, not the landlord, consents to creation.
    pub fn create_agreement(
        &mut self,
        gate: &AuthGate,
        agreement_id: String,
        landlord: Address,
        tenant: Address,
        agent: Option<Address>,
        monthly_rent: i128,
        security_deposit: i128,
        start_date: u64,
        end_date: u64,
        agent_commission_rate: u32,
        payment_token: Address,
    ) -> (r: Result<(), RentalError>)
        requires
            old(self).wf(),
            gate.authorizes(tenant),
            old(self)@.agreement_count < u32::MAX,
        ensures
            final(self).wf(),
            (final(self)@, r) == create_agreement_spec(
                old(self)@,
                agreement_id@,
                landlord,
                tenant,
                agent,
                monthly_rent,
                security_deposit,
                start_date,
                end_date,
                agent_commission_rate,
                payment_token,
            ),
    {
        if let Err(e) = Self::validate_agreement_params(
            &monthly_rent,
            &security_deposit,
            &start_date,
            &end_date,
            &agent_commission_rate,
        ) {
            return Err(e);
        }
        proof {
            lemma_keyed_map_chars(self.agreements@, agreement_key(), agreement_val());
        }
        if find_agreement_index(&self.agreements, &agreement_id).is_some() {
            return Err(RentalError::AgreementAlreadyExists);
        }
        let ghost s0 = self.agreements@;
        let record = RentAgreement {
            agreement_id: agreement_id.clone(),
            landlord,
            tenant,
            agent,
            monthly_rent,
            security_deposit,
            start_date,
            end_date,
            agent_commission_rate,
            payment_token,
            status: AgreementStatus::Draft,
            signed_at: None,
        };
        let ev = ContractEvent::Created(AgreementCreatedEvent { agreement_id });
        proof {
            lemma_keyed_map_push(s0, agreement_key(), agreement_val(), record);
            assert forall|i: int, j: int|
                0 <= i < j < s0.push(record).len() implies agreement_key()(
                s0.push(record)[i],
            ) != agreement_key()(s0.push(record)[j]) by {
                if j == s0.len() {
                    assert(s0.push(record)[i] == s0[i]);
                } else {
                    assert(s0.push(record)[i] == s0[i]);
                    assert(s0.push(record)[j] == s0[j]);
                }
            }
            lemma_event_models_push(self.events@, ev);
        }
        self.agreements.push(record);
        self.agreement_count = self.agreement_count + 1;
        self.events.push(ev);
        proof {
            ContractModel::lemma_inv_upsert_agreement(
                old(self)@,
                self@,
                record.agreement_id@,
                record@,
            );
        }
        Ok(())
    }

    /// The tenant signs a Pending agreement, making it Active, exactly once
    /// and only before its end date.
    ///
    /// The host must have authenticated the tenant before dispatching here.
    pub fn sign_agreement(
        &mut self,
        gate: &AuthGate,
        tenant: Address,
        agreement_id: String,
        now: u64,
    ) -> (r: Result<(), RentalError>)
        requires
            old(self).wf(),
            gate.authorizes(tenant),
        ensures
            final(self).wf(),
            (final(self)@, r) == sign_agreement_spec(old(self)@, tenant, agreement_id@, now),
    {
        proof {
            lemma_keyed_map_chars(self.agreements@, agreement_key(), agreement_val());
        }
        let i = match find_agreement_index(&self.agreements, &agreement_id) {
            Some(i) => i,
            None => {
                return Err(RentalError::AgreementNotFound);
            },
        };
        if self.agreements[i].tenant != tenant {
            return Err(RentalError::NotTenant);
        }
        if !(self.agreements[i].status == AgreementStatus::Pending) {
            return Err(RentalError::InvalidState);
        }
        if now > self.agreements[i].end_date {
            return Err(RentalError::Expired);
        }
        let mut record = self.agreements[i].clone();
        record.status = AgreementStatus::Active;
        record.signed_at = Some(now);
        let ev = ContractEvent::Signed(
            AgreementSigned {
                agreement_id,
                landlord: record.landlord,
                tenant: record.tenant,
                signed_at: now,
            },
        );
        proof {
            lemma_keyed_map_update(
                self.agreements@,
                agreement_key(),
                agreement_val(),
                i as int,
                record,
            );
            lemma_event_models_push(self.events@, ev);
        }
        replace_at(&mut self.agreements, i, record);
        self.events.push(ev);
        proof {
            ContractModel::lemma_inv_upsert_agreement(
                old(self)@,
                self@,
                record.agreement_id@,
                record@,
            );
        }
        Ok(())
    }

    /// The stored agreement under this identifier, if any.
    pub fn get_agreement(&self, agreement_id: &String) -> (r: Option<RentAgreement>)
        requires
            self.wf(),
        ensures
            match r {
                Some(a) => self@.agreement_lookup(agreement_id@) == Some(a@),
                None => self@.agreement_lookup(agreement_id@) is None,
            },
    {
        proof {
            lemma_keyed_map_chars(self.agreements@, agreement_key(), agreement_val());
        }
        match find_agreement_index(&self.agreements, agreement_id) {
            Some(i) => Some(self.agreements[i].clone()),
            None => None,
        }
    }

    /// Whether an agreement is stored under this identifier.
    pub fn has_agreement(&self, agreement_id: &String) -> (r: bool)
        requires
            self.wf(),
        ensures
            r == self@.agreements.dom().contains(agreement_id@),
    {
        proof {
            lemma_keyed_map_chars(self.agreements@, agreement_key(), agreement_val());
        }
        find_agreement_index(&self.agreements, agreement_id).is_some()
    }

    /// How many agreements have ever been created here.
    pub fn get_agreement_count(&self) -> (r: u32)
        ensures
            r == self@.agreement_count,
    {
        self.agreement_count
    }

    /// The division of one month of rent between landlord and agent: the
    /// agent's share is rent times commission rate in whole percent, the
    /// landlord keeps the remainder. Owed for every Active agreement, and
    /// the same for every month of the term.
    pub fn get_payment_split(&self, agreement_id: &String, month: u64) -> (r: Result<
        PaymentSplit,
        RentalError,
    >)
        requires
            self.wf(),
        ensures
            r == payment_split_spec(self@, agreement_id@),
    {
        proof {
            lemma_keyed_map_chars(self.agreements@, agreement_key(), agreement_val());
        }
        let i = match find_agreement_index(&self.agreements, agreement_id) {
            Some(i) => i,
            None => {
                return Err(RentalError::AgreementNotFound);
            },
        };
        if !(self.agreements[i].status == AgreementStatus::Active) {
            return Err(RentalError::AgreementNotActive);
        }
        let rent = self.agreements[i].monthly_rent;
        let rate = self.agreements[i].agent_commission_rate;
        proof {
            assert(self@.agreements[agreement_id@].wf());
            lemma_split_exact(rent as int, rate as int);
        }
        let whole = rent / 100;
        let cents = rent % 100;
        let agent_share = whole * (rate as i128) + cents * (rate as i128) / 100;
        let landlord_share = rent - agent_share;
        Ok(PaymentSplit { landlord_share, agent_share })
    }
}

/// Splitting the rent digit-wise — whole hundreds times the rate, plus the
/// remainder's share — equals the direct product divided by 100, and the
/// agent's share never exceeds the rent.
proof fn lemma_split_exact(rent: int, rate: int)
    requires
        rent > 0,
        0 <= rate <= 100,
    ensures
        (rent / 100) * rate + (rent % 100) * rate / 100 == rent * rate / 100,
        0 <= (rent / 100) * rate,
        0 <= (rent % 100) * rate <= 10000,
        0 <= rent * rate / 100 <= rent,
{
    let q = rent / 100;
    let s = rent % 100;
    lemma_fundamental_div_mod(rent, 100);
    assert(rent == 100 * q + s);
    lemma_div_pos_is_pos(rent, 100);
    assert(rent * rate == s * rate + (q * rate) * 100) by (nonlinear_arith)
        requires
            rent == 100 * q + s,
    ;
    lemma_hoist_over_denominator(s * rate, q * rate, 100);
    assert(s * rate / 100 + q * rate == (s * rate + (q * rate) * 100) / 100);
    assert(0 <= s * rate <= 10000) by (nonlinear_arith)
        requires
            0 <= s < 100 && 0 <= rate <= 100,
    ;
    lemma_div_pos_is_pos(s * rate, 100);
    assert(0 <= q * rate) by (nonlinear_arith)
        requires
            q >= 0 && rate >= 0,
    ;
    // The agent's share is bounded by the rent: the whole-hundreds part by
    // rent - remainder, and the remainder's share by the remainder itself.
    assert(q * rate <= q * 100) by (nonlinear_arith)
        requires
            q >= 0 && rate <= 100,
    ;
    assert(s * rate <= s * 100) by (nonlinear_arith)
        requires
            s >= 0 && rate <= 100,
    ;
    lemma_div_is_ordered(s * rate, s * 100, 100);
    lemma_div_by_multiple(s, 100);
    assert(s * rate / 100 <= s);
}

} // verus!
