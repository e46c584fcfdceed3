//! Rental-agreement lifecycle management and a multi-party escrow engine,
//! written as deterministic state-transition logic for a blockchain
//! execution host. The host substrate — key-addressed persistent storage,
//! signature verification, the event sink and the asset mover — is external:
//! the host runs each operation transactionally, authenticates actors before
//! dispatch, and moves funds once this logic has decided whether and to whom
//! they go. What stands here is everything the contract itself decides, with
//! each operation specified as a transition on the contract's mathematical
//! state.

use vstd::prelude::*;

pub mod auth;
pub mod errors;
pub mod escrow;
pub mod events;
pub mod laws;
pub mod model;
pub mod release;
pub mod rental;
pub mod store;
pub mod types;

use crate::auth::AuthGate;
use crate::errors::RentalError;
use crate::escrow::{ApprovalRecord, Escrow, EscrowId, EscrowModel};
use crate::events::{event_models, lemma_event_models_push, ContractEvent, ContractInitialized, EventModel};
use crate::model::ContractModel;
use crate::store::{keyed_map, keys_distinct, lemma_keyed_map_push};
use crate::types::{Address, AgreementModel, Config, ContractState, RentAgreement};

verus! {

/// The key of an agreement record.
pub open spec fn agreement_key() -> spec_fn(RentAgreement) -> Seq<char> {
    |a: RentAgreement| a.agreement_id@
}

/// The image of an agreement record.
pub open spec fn agreement_val() -> spec_fn(RentAgreement) -> AgreementModel {
    |a: RentAgreement| a@
}

/// The key of an escrow record.
pub open spec fn escrow_key() -> spec_fn(Escrow) -> EscrowId {
    |e: Escrow| e.id
}

/// The image of an escrow record.
pub open spec fn escrow_val() -> spec_fn(Escrow) -> EscrowModel {
    |e: Escrow| e@
}

/// One deployed instance of the contract: the records it owns in the host's
/// store, held directly since the host serializes operations and commits or
/// aborts each one as a whole.
pub struct Contract {
    pub state: Option<ContractState>,
    pub agreements: Vec<RentAgreement>,
    pub agreement_count: u32,
    pub escrows: Vec<Escrow>,
    pub approvals: Vec<ApprovalRecord>,
    pub next_seq: u64,
    pub events: Vec<ContractEvent>,
}

impl View for Contract {
    type V = ContractModel;

    open spec fn view(&self) -> ContractModel {
        ContractModel {
            setup: self.state,
            agreements: keyed_map(self.agreements@, agreement_key(), agreement_val()),
            agreement_count: self.agreement_count,
            escrows: keyed_map(self.escrows@, escrow_key(), escrow_val()),
            approvals: self.approvals@,
            next_seq: self.next_seq,
            events: event_models(self.events@),
        }
    }
}

impl Contract {
    /// The representation is sound — no key is stored twice — and the
    /// mathematical state satisfies the contract invariant.
    pub open spec fn wf(&self) -> bool {
        &&& keys_distinct(self.agreements@, agreement_key())
        &&& keys_distinct(self.escrows@, escrow_key())
        &&& self@.inv()
    }

    /// A freshly deployed contract: nothing stored, nothing emitted.
    pub fn new() -> (r: Contract)
        ensures
            r.wf(),
            r@.setup is None,
            r@.agreements == Map::<Seq<char>, AgreementModel>::empty(),
            r@.agreement_count == 0,
            r@.escrows == Map::<EscrowId, EscrowModel>::empty(),
            r@.approvals == Seq::<ApprovalRecord>::empty(),
            r@.next_seq == 0,
            r@.events == Seq::<EventModel>::empty(),
    {
        Contract {
            state: None,
            agreements: Vec::new(),
            agreement_count: 0,
            escrows: Vec::new(),
            approvals: Vec::new(),
            next_seq: 0,
            events: Vec::new(),
        }
    }

    /// Greets the caller.
    pub fn hello(to: String) -> (r: Vec<String>)
        ensures
            r@.len() == 2,
            r@[0]@ == "Hello"@,
            r@[1]@ == to@,
    {
        let mut words: Vec<String> = Vec::new();
        words.push("Hello".to_owned());
        words.push(to);
        words
    }

    /// What `initialize` does to the state: a second initialization is
    /// refused, a fee above 10000 basis points is refused, and otherwise the
    /// administrative record is written once and an initialization
    /// notification is logged.
    pub open spec fn initialize_spec(m: ContractModel, admin: Address, config: Config) -> (
        ContractModel,
        Result<(), RentalError>,
    ) {
        if m.setup is Some {
            (m, Err(RentalError::AlreadyInitialized))
        } else if config.fee_bps > 10000 {
            (m, Err(RentalError::InvalidConfig))
        } else {
            (
                ContractModel {
                    setup: Some(ContractState { admin, config, initialized: true }),
                    events: m.events.push(EventModel::Initialized { admin }),
                    ..m
                },
                Ok(()),
            )
        }
    }

    /// Set the administrative record, exactly once.
    ///
    /// The host must have authenticated the admin before dispatching here.
    pub fn initialize(&mut self, gate: &AuthGate, admin: Address, config: Config) -> (r: Result<
        (),
        RentalError,
    >)
        requires
            old(self).wf(),
            gate.authorizes(admin),
        ensures
            final(self).wf(),
            (final(self)@, r) == Self::initialize_spec(old(self)@, admin, config),
    {
        if self.state.is_some() {
            return Err(RentalError::AlreadyInitialized);
        }
        if config.fee_bps > 10000 {
            return Err(RentalError::InvalidConfig);
        }
        self.state = Some(ContractState { admin, config, initialized: true });
        proof {
            lemma_event_models_push(
                self.events@,
                ContractEvent::Initialized(ContractInitialized { admin }),
            );
        }
        self.events.push(ContractEvent::Initialized(ContractInitialized { admin }));
        proof {
            ContractModel::lemma_inv_same_records(old(self)@, self@);
        }
        Ok(())
    }

    /// The administrative record, if the contract has been initialized.
    pub fn get_state(&self) -> (r: Option<ContractState>)
        ensures
            r == self@.setup,
    {
        self.state
    }

    /// Write an agreement record under its own identifier, creating or
    /// replacing it. This is the administrative store write that moves an
    /// agreement between phases outside the tenant-driven transitions —
    /// in particular from Draft to Pending.
    pub fn set_agreement(&mut self, agreement: RentAgreement)
        requires
            old(self).wf(),
            agreement@.wf(),
        ensures
            final(self).wf(),
            final(self)@ == (ContractModel {
                agreements: old(self)@.agreements.insert(agreement.agreement_id@, agreement@),
                ..old(self)@
            }),
    {
        let ghost s0 = self.agreements@;
        let idx = find_agreement_index(&self.agreements, &agreement.agreement_id);
        match idx {
            Some(i) => {
                proof {
                    crate::store::lemma_keyed_map_update(
                        s0,
                        agreement_key(),
                        agreement_val(),
                        i as int,
                        agreement,
                    );
                }
                crate::store::replace_at(&mut self.agreements, i, agreement);
            },
            None => {
                proof {
                    lemma_keyed_map_push(s0, agreement_key(), agreement_val(), agreement);
                    assert forall|i: int, j: int|
                        0 <= i < j < s0.push(agreement).len() implies agreement_key()(
                        s0.push(agreement)[i],
                    ) != agreement_key()(s0.push(agreement)[j]) by {
                        if j == s0.len() {
                            assert(s0.push(agreement)[i] == s0[i]);
                        } else {
                            assert(s0.push(agreement)[i] == s0[i]);
                            assert(s0.push(agreement)[j] == s0[j]);
                        }
                    }
                }
                self.agreements.push(agreement);
            },
        }
    }
}

/// Index of the agreement stored under `agreement_id`, if any.
pub(crate) fn find_agreement_index(v: &Vec<RentAgreement>, agreement_id: &String) -> (r: Option<
    usize,
>)
    ensures
        match r {
            Some(i) => i < v@.len() && v@[i as int].agreement_id@ == agreement_id@,
            None => forall|j: int|
                0 <= j < v@.len() ==> (#[trigger] v@[j]).agreement_id@ != agreement_id@,
        },
{
    let n = v.len();
    let mut i: usize = 0;
    while i < n
        invariant
            n == v@.len(),
            0 <= i <= n,
            forall|j: int| 0 <= j < i ==> (#[trigger] v@[j]).agreement_id@ != agreement_id@,
        decreases n - i,
    {
        if v[i].agreement_id == *agreement_id {
            return Some(i);
        }
        i = i + 1;
    }
    None
}

/// Index of the escrow stored under `id`, if any.
pub(crate) fn find_escrow_index(v: &Vec<Escrow>, id: &EscrowId) -> (r: Option<usize>)
    ensures
        match r {
            Some(i) => i < v@.len() && v@[i as int].id == *id,
            None => forall|j: int| 0 <= j < v@.len() ==> (#[trigger] v@[j]).id != *id,
        },
{
    let n = v.len();
    let mut i: usize = 0;
    while i < n
        invariant
            n == v@.len(),
            0 <= i <= n,
            forall|j: int| 0 <= j < i ==> (#[trigger] v@[j]).id != *id,
        decreases n - i,
    {
        if v[i].id == *id {
            return Some(i);
        }
        i = i + 1;
    }
    None
}

} // verus!
