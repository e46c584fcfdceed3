use vstd::prelude::*;
use crate::types::{Address, AgreementModel, ContractState};
use crate::events::EventModel;
use crate::escrow::{approval_count, ApprovalRecord, EscrowId, EscrowModel};

verus! {

/// The mathematical state of the whole contract: the administrative record,
/// the two keyed record families, the approval ledger, the sequence number
/// that disambiguates escrow handles, and the notification log.
pub struct ContractModel {
    pub setup: Option<ContractState>,
    pub agreements: Map<Seq<char>, AgreementModel>,
    pub agreement_count: u32,
    pub escrows: Map<EscrowId, EscrowModel>,
    pub approvals: Seq<ApprovalRecord>,
    pub next_seq: u64,
    pub events: Seq<EventModel>,
}

impl ContractModel {
    /// The state every operation preserves:
    /// - every stored agreement is well formed and sits under its own key;
    /// - every stored escrow is well formed, sits under its own key, and its
    ///   handle was drawn from a sequence number below `next_seq`;
    /// - every recorded approval points at a stored escrow, and no triple is
    ///   recorded twice;
    /// - an escrow still Pending has no approvals at all; one that is Funded
    ///   or Disputed has at most one approval per target (a second one for
    ///   the same target would have released it); no target of any escrow
    ///   ever has more than the two approvals that release it.
    pub open spec fn inv(self) -> bool {
        &&& forall|k: Seq<char>|
            self.agreements.dom().contains(k) ==> (#[trigger] self.agreements[k]).wf()
                && self.agreements[k].agreement_id == k
        &&& forall|id: EscrowId|
            self.escrows.dom().contains(id) ==> (#[trigger] self.escrows[id]).wf()
                && self.escrows[id].id == id && id.seq < self.next_seq
        &&& forall|i: int|
            0 <= i < self.approvals.len() ==> self.escrows.dom().contains(
                (#[trigger] self.approvals[i]).escrow,
            )
        &&& forall|i: int, j: int|
            0 <= i < j < self.approvals.len() ==> self.approvals[i] != self.approvals[j]
        &&& forall|id: EscrowId, t: Address|
            self.escrows.dom().contains(id) && self.escrows[id].status is Pending
                ==> #[trigger] approval_count(self.approvals, id, t) == 0
        &&& forall|id: EscrowId, t: Address|
            self.escrows.dom().contains(id) && (self.escrows[id].status is Funded
                || self.escrows[id].status is Disputed) ==> #[trigger] approval_count(
                self.approvals,
                id,
                t,
            ) <= 1
        &&& forall|id: EscrowId, t: Address| #[trigger] approval_count(self.approvals, id, t) <= 2
    }

    /// The invariant reads only the records, the approval ledger and the
    /// sequence number: a state that agrees on those inherits it.
    pub proof fn lemma_inv_same_records(m1: ContractModel, m2: ContractModel)
        requires
            m1.inv(),
            m2.agreements == m1.agreements,
            m2.escrows == m1.escrows,
            m2.approvals == m1.approvals,
            m2.next_seq == m1.next_seq,
        ensures
            m2.inv(),
    {
    }

    /// Writing a well-formed agreement under its own key preserves the
    /// invariant when nothing else changes.
    pub proof fn lemma_inv_upsert_agreement(
        m1: ContractModel,
        m2: ContractModel,
        k: Seq<char>,
        a: AgreementModel,
    )
        requires
            m1.inv(),
            a.wf(),
            a.agreement_id == k,
            m2.agreements == m1.agreements.insert(k, a),
            m2.escrows == m1.escrows,
            m2.approvals == m1.approvals,
            m2.next_seq == m1.next_seq,
        ensures
            m2.inv(),
    {
    }

    /// The stored agreement under `id`, if any.
    pub open spec fn agreement_lookup(self, id: Seq<char>) -> Option<AgreementModel> {
        if self.agreements.dom().contains(id) {
            Some(self.agreements[id])
        } else {
            None
        }
    }

    /// The stored escrow under `id`, if any.
    pub open spec fn escrow_lookup(self, id: EscrowId) -> Option<EscrowModel> {
        if self.escrows.dom().contains(id) {
            Some(self.escrows[id])
        } else {
            None
        }
    }
}

} // verus!
