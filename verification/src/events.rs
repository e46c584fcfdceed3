use vstd::prelude::*;
use crate::types::Address;

verus! {

/// Notification that a new agreement was created.
#[derive(Debug)]
pub struct AgreementCreatedEvent {
    pub agreement_id: String,
}

/// Notification that an agreement was signed by the tenant.
#[derive(Debug)]
pub struct AgreementSigned {
    pub agreement_id: String,
    pub landlord: Address,
    pub tenant: Address,
    pub signed_at: u64,
}

/// Notification that the contract was initialized.
#[derive(Clone, Copy, PartialEq, Eq, Structural, Debug)]
pub struct ContractInitialized {
    pub admin: Address,
}

/// One entry of the contract's notification log. Emission order within an
/// operation is the order of the log; delivery to off-chain observers is the
/// host's business and is fire-and-forget.
#[derive(Debug)]
pub enum ContractEvent {
    Created(AgreementCreatedEvent),
    Signed(AgreementSigned),
    Initialized(ContractInitialized),
}

/// Mathematical image of one log entry.
pub enum EventModel {
    Created { agreement_id: Seq<char> },
    Signed { agreement_id: Seq<char>, landlord: Address, tenant: Address, signed_at: u64 },
    Initialized { admin: Address },
}

impl View for ContractEvent {
    type V = EventModel;

    open spec fn view(&self) -> EventModel {
        match self {
            ContractEvent::Created(e) => EventModel::Created { agreement_id: e.agreement_id@ },
            ContractEvent::Signed(e) => EventModel::Signed {
                agreement_id: e.agreement_id@,
                landlord: e.landlord,
                tenant: e.tenant,
                signed_at: e.signed_at,
            },
            ContractEvent::Initialized(e) => EventModel::Initialized { admin: e.admin },
        }
    }
}

/// The image of a whole notification log.
pub open spec fn event_models(s: Seq<ContractEvent>) -> Seq<EventModel>
    decreases s.len(),
{
    if s.len() == 0 {
        Seq::empty()
    } else {
        event_models(s.drop_last()).push(s.last()@)
    }
}

/// Appending to the log appends to its image.
pub proof fn lemma_event_models_push(s: Seq<ContractEvent>, e: ContractEvent)
    ensures
        event_models(s.push(e)) == event_models(s).push(e@),
{
    assert(s.push(e).drop_last() =~= s);
    assert(s.push(e).last() == e);
}

} // verus!
