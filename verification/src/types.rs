use vstd::prelude::*;

verus! {

/// An account identity as the execution host hands it to the contract: an
/// opaque handle that the contract logic only ever compares for equality.
#[derive(Clone, Copy, PartialEq, Eq, Structural, Debug, Hash)]
pub struct Address(pub u64);

/// Lifecycle phase of a rental agreement.
///
/// An agreement is created in `Draft`, moved to `Pending` by an
/// administrative store write, and moved to `Active` by `sign_agreement`.
/// Expiry is never stored: it is checked against the clock at signing time.
#[derive(Clone, Copy, PartialEq, Eq, Structural, Debug)]
pub enum AgreementStatus {
    Draft,
    Pending,
    Active,
}

/// A rental agreement record as held in the keyed record store.
#[derive(Debug)]
pub struct RentAgreement {
    pub agreement_id: String,
    pub landlord: Address,
    pub tenant: Address,
    pub agent: Option<Address>,
    pub monthly_rent: i128,
    pub security_deposit: i128,
    pub start_date: u64,
    pub end_date: u64,
    pub agent_commission_rate: u32,
    pub payment_token: Address,
    pub status: AgreementStatus,
    pub signed_at: Option<u64>,
}

/// Mathematical image of a rental agreement record.
pub struct AgreementModel {
    pub agreement_id: Seq<char>,
    pub landlord: Address,
    pub tenant: Address,
    pub agent: Option<Address>,
    pub monthly_rent: i128,
    pub security_deposit: i128,
    pub start_date: u64,
    pub end_date: u64,
    pub agent_commission_rate: u32,
    pub payment_token: Address,
    pub status: AgreementStatus,
    pub signed_at: Option<u64>,
}

impl View for RentAgreement {
    type V = AgreementModel;

    open spec fn view(&self) -> AgreementModel {
        AgreementModel {
            agreement_id: self.agreement_id@,
            landlord: self.landlord,
            tenant: self.tenant,
            agent: self.agent,
            monthly_rent: self.monthly_rent,
            security_deposit: self.security_deposit,
            start_date: self.start_date,
            end_date: self.end_date,
            agent_commission_rate: self.agent_commission_rate,
            payment_token: self.payment_token,
            status: self.status,
            signed_at: self.signed_at,
        }
    }
}

impl Clone for RentAgreement {
    fn clone(&self) -> (r: Self)
        ensures
            r@ == self@,
    {
        RentAgreement {
            agreement_id: self.agreement_id.clone(),
            landlord: self.landlord,
            tenant: self.tenant,
            agent: self.agent,
            monthly_rent: self.monthly_rent,
            security_deposit: self.security_deposit,
            start_date: self.start_date,
            end_date: self.end_date,
            agent_commission_rate: self.agent_commission_rate,
            payment_token: self.payment_token,
            status: self.status,
            signed_at: self.signed_at,
        }
    }
}

impl AgreementModel {
    /// A stored agreement always carries parameters that passed validation,
    /// and its signing timestamp is present exactly when it is Active.
    pub open spec fn wf(self) -> bool {
        &&& self.monthly_rent > 0
        &&& self.security_deposit >= 0
        &&& self.start_date < self.end_date
        &&& self.agent_commission_rate <= 100
        &&& (self.signed_at is Some <==> self.status is Active)
    }
}

/// Administrative configuration fixed at initialization.
#[derive(Clone, Copy, PartialEq, Eq, Structural, Debug)]
pub struct Config {
    pub fee_bps: u32,
    pub fee_collector: Address,
    pub paused: bool,
}

/// The singleton administrative record of the contract.
#[derive(Clone, Copy, PartialEq, Eq, Structural, Debug)]
pub struct ContractState {
    pub admin: Address,
    pub config: Config,
    pub initialized: bool,
}

/// The division of one month of rent between landlord and agent.
#[derive(Clone, Copy, PartialEq, Eq, Structural, Debug)]
pub struct PaymentSplit {
    pub landlord_share: i128,
    pub agent_share: i128,
}

} // verus!
