use vstd::prelude::*;
use crate::types::Address;

verus! {

/// Everything that can go wrong in the escrow engine.
#[derive(Clone, Copy, PartialEq, Eq, Structural, Debug)]
pub enum EscrowError {
    /// No escrow is stored under this identifier
    EscrowNotFound,
    /// The escrowed amount must be positive
    InsufficientFunds,
    /// A party is duplicated, or a release target is not a primary party
    InvalidSigner,
    /// This signer already approved this release target
    AlreadySigned,
    /// The caller is not entitled to this operation
    NotAuthorized,
    /// A dispute needs a reason
    EmptyDisputeReason,
    /// The escrow is not in a state this operation may act on
    InvalidState,
}

/// The escrow state machine: Pending -> Funded -> {Released | Disputed ->
/// Released}. Released (and the Refunded side state) is terminal: no further
/// mutation is permitted once it is reached.
#[derive(Clone, Copy, PartialEq, Eq, PartialOrd, Ord, Structural, Debug, Hash)]
pub enum EscrowStatus {
    Pending,
    Funded,
    Released,
    Disputed,
    Refunded,
}

/// A 32-byte escrow handle: four 64-bit words derived from the parties plus
/// a per-contract sequence number, so that two creations with identical
/// parties still receive distinct handles.
#[derive(Clone, Copy, PartialEq, Eq, Structural, Debug, Hash)]
pub struct EscrowId {
    pub seq: u64,
    pub depositor_tag: u64,
    pub beneficiary_tag: u64,
    pub arbiter_tag: u64,
}

/// An escrow record as held in the keyed record store.
#[derive(PartialEq, Eq, Debug)]
pub struct Escrow {
    pub id: EscrowId,
    pub depositor: Address,
    pub beneficiary: Address,
    pub arbiter: Address,
    pub amount: i128,
    pub token: Address,
    pub status: EscrowStatus,
    pub created_at: u64,
    pub dispute_reason: Option<String>,
}

/// Mathematical image of an escrow record.
pub struct EscrowModel {
    pub id: EscrowId,
    pub depositor: Address,
    pub beneficiary: Address,
    pub arbiter: Address,
    pub amount: i128,
    pub token: Address,
    pub status: EscrowStatus,
    pub created_at: u64,
    pub dispute_reason: Option<Seq<char>>,
}

impl View for Escrow {
    type V = EscrowModel;

    open spec fn view(&self) -> EscrowModel {
        EscrowModel {
            id: self.id,
            depositor: self.depositor,
            beneficiary: self.beneficiary,
            arbiter: self.arbiter,
            amount: self.amount,
            token: self.token,
            status: self.status,
            created_at: self.created_at,
            dispute_reason: match &self.dispute_reason {
                Some(r) => Some(r@),
                None => None,
            },
        }
    }
}

impl Clone for Escrow {
    fn clone(&self) -> (r: Self)
        ensures
            r@ == self@,
    {
        Escrow {
            id: self.id,
            depositor: self.depositor,
            beneficiary: self.beneficiary,
            arbiter: self.arbiter,
            amount: self.amount,
            token: self.token,
            status: self.status,
            created_at: self.created_at,
            dispute_reason: match &self.dispute_reason {
                Some(r) => Some(r.clone()),
                None => None,
            },
        }
    }
}

impl EscrowModel {
    /// A caller that may act on this escrow at all.
    pub open spec fn is_party(self, a: Address) -> bool {
        a == self.depositor || a == self.beneficiary || a == self.arbiter
    }

    /// A party that funds may be released to: depositor or beneficiary,
    /// never the arbiter.
    pub open spec fn is_primary_party(self, a: Address) -> bool {
        a == self.depositor || a == self.beneficiary
    }

    /// A stored escrow has a positive amount, pairwise distinct parties, and
    /// carries a non-empty dispute reason exactly while it is Disputed.
    pub open spec fn wf(self) -> bool {
        &&& self.amount > 0
        &&& self.depositor != self.beneficiary
        &&& self.depositor != self.arbiter
        &&& self.beneficiary != self.arbiter
        &&& (self.dispute_reason is Some <==> self.status is Disputed)
        &&& (self.dispute_reason matches Some(r) ==> r.len() > 0)
    }
}

/// One recorded approval: `signer` has agreed that the funds of `escrow`
/// be released to `release_to`.
#[derive(Clone, Copy, PartialEq, Eq, Structural, Debug)]
pub struct ApprovalRecord {
    pub escrow: EscrowId,
    pub release_to: Address,
    pub signer: Address,
}

/// How many distinct signers have approved releasing `id` to `release_to`.
/// The ledger never holds the same (escrow, target, signer) triple twice,
/// so counting entries counts distinct signers.
pub open spec fn approval_count(s: Seq<ApprovalRecord>, id: EscrowId, release_to: Address) -> nat
    decreases s.len(),
{
    if s.len() == 0 {
        0
    } else {
        approval_count(s.drop_last(), id, release_to) + (
        if s.last().escrow == id && s.last().release_to == release_to {
            1nat
        } else {
            0nat
        })
    }
}

/// `signer` has already approved releasing `id` to `release_to`.
pub open spec fn has_approved(
    s: Seq<ApprovalRecord>,
    id: EscrowId,
    release_to: Address,
    signer: Address,
) -> bool {
    exists|i: int|
        0 <= i < s.len() && s[i] == (ApprovalRecord { escrow: id, release_to, signer })
}

/// Appending an approval raises exactly the matching count by one.
pub proof fn lemma_approval_count_push(
    s: Seq<ApprovalRecord>,
    r: ApprovalRecord,
    id: EscrowId,
    release_to: Address,
)
    ensures
        approval_count(s.push(r), id, release_to) == approval_count(s, id, release_to) + (
        if r.escrow == id && r.release_to == release_to {
            1int
        } else {
            0int
        }),
{
    assert(s.push(r).drop_last() =~= s);
    assert(s.push(r).last() == r);
}

/// A ledger that mentions an escrow not among `ids` counts nothing for it.
pub proof fn lemma_approval_count_zero(
    s: Seq<ApprovalRecord>,
    id: EscrowId,
    release_to: Address,
)
    requires
        forall|i: int| 0 <= i < s.len() ==> (#[trigger] s[i]).escrow != id,
    ensures
        approval_count(s, id, release_to) == 0,
    decreases s.len(),
{
    if s.len() > 0 {
        assert(s.last() == s[s.len() - 1]);
        assert(forall|i: int| 0 <= i < s.drop_last().len() ==> s.drop_last()[i] == s[i]);
        lemma_approval_count_zero(s.drop_last(), id, release_to);
    }
}

/// Pure identity checks over an escrow record, shared by the engine and by
/// external callers that need to pre-validate an actor.
pub struct AccessControl;

impl AccessControl {
    /// The caller is the depositor.
    pub fn is_depositor(escrow: &Escrow, caller: &Address) -> (r: Result<(), EscrowError>)
        ensures
            r is Ok <==> *caller == escrow.depositor,
            r is Err ==> r == Err::<(), EscrowError>(EscrowError::NotAuthorized),
    {
        if escrow.depositor == *caller {
            Ok(())
        } else {
            Err(EscrowError::NotAuthorized)
        }
    }

    /// The caller is the beneficiary.
    pub fn is_beneficiary(escrow: &Escrow, caller: &Address) -> (r: Result<(), EscrowError>)
        ensures
            r is Ok <==> *caller == escrow.beneficiary,
            r is Err ==> r == Err::<(), EscrowError>(EscrowError::NotAuthorized),
    {
        if escrow.beneficiary == *caller {
            Ok(())
        } else {
            Err(EscrowError::NotAuthorized)
        }
    }

    /// The caller is the arbiter.
    pub fn is_arbiter(escrow: &Escrow, caller: &Address) -> (r: Result<(), EscrowError>)
        ensures
            r is Ok <==> *caller == escrow.arbiter,
            r is Err ==> r == Err::<(), EscrowError>(EscrowError::NotAuthorized),
    {
        if escrow.arbiter == *caller {
            Ok(())
        } else {
            Err(EscrowError::NotAuthorized)
        }
    }

    /// The caller is one of the three parties.
    pub fn is_party(escrow: &Escrow, caller: &Address) -> (r: Result<(), EscrowError>)
        ensures
            r is Ok <==> escrow@.is_party(*caller),
            r is Err ==> r == Err::<(), EscrowError>(EscrowError::NotAuthorized),
    {
        if escrow.depositor == *caller || escrow.beneficiary == *caller || escrow.arbiter
            == *caller {
            Ok(())
        } else {
            Err(EscrowError::NotAuthorized)
        }
    }

    /// The caller is a primary party: depositor or beneficiary, not the
    /// arbiter.
    pub fn is_primary_party(escrow: &Escrow, caller: &Address) -> (r: Result<(), EscrowError>)
        ensures
            r is Ok <==> escrow@.is_primary_party(*caller),
            r is Err ==> r == Err::<(), EscrowError>(EscrowError::NotAuthorized),
    {
        if escrow.depositor == *caller || escrow.beneficiary == *caller {
            Ok(())
        } else {
            Err(EscrowError::NotAuthorized)
        }
    }
}

} // verus!
