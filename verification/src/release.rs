use vstd::prelude::*;
use crate::escrow::{
    approval_count,
    has_approved,
    lemma_approval_count_push,
    lemma_approval_count_zero,
    ApprovalRecord,
    Escrow,
    EscrowError,
    EscrowId,
    EscrowModel,
    EscrowStatus,
};
use crate::model::ContractModel;
use crate::store::{lemma_keyed_map_chars, lemma_keyed_map_push, lemma_keyed_map_update, replace_at};
use crate::types::Address;
use crate::{escrow_key, escrow_val, find_escrow_index, Contract};

verus! {

/// The handle a creation at sequence number `seq` assigns: the parties'
/// tags make it content-derived, the sequence number makes it unique.
pub open spec fn escrow_id_of(
    seq: u64,
    depositor: Address,
    beneficiary: Address,
    arbiter: Address,
) -> EscrowId {
    EscrowId {
        seq,
        depositor_tag: depositor.0,
        beneficiary_tag: beneficiary.0,
        arbiter_tag: arbiter.0,
    }
}

/// The record a successful creation stores: Pending, undisputed.
pub open spec fn fresh_escrow(
    seq: u64,
    depositor: Address,
    beneficiary: Address,
    arbiter: Address,
    amount: i128,
    token: Address,
    now: u64,
) -> EscrowModel {
    EscrowModel {
        id: escrow_id_of(seq, depositor, beneficiary, arbiter),
        depositor,
        beneficiary,
        arbiter,
        amount,
        token,
        status: EscrowStatus::Pending,
        created_at: now,
        dispute_reason: None,
    }
}

/// What `create_escrow` does to the state: a positive amount and pairwise
/// distinct parties are demanded, then a record is stored in Pending under
/// a handle drawn from the current sequence number, which advances. A
/// failed call changes nothing.
pub open spec fn create_escrow_spec(
    m: ContractModel,
    depositor: Address,
    beneficiary: Address,
    arbiter: Address,
    amount: i128,
    token: Address,
    now: u64,
) -> (ContractModel, Result<EscrowId, EscrowError>) {
    if amount <= 0 {
        (m, Err(EscrowError::InsufficientFunds))
    } else if depositor == beneficiary || depositor == arbiter || beneficiary == arbiter {
        (m, Err(EscrowError::InvalidSigner))
    } else {
        let id = escrow_id_of(m.next_seq, depositor, beneficiary, arbiter);
        (
            ContractModel {
                escrows: m.escrows.insert(
                    id,
                    fresh_escrow(m.next_seq, depositor, beneficiary, arbiter, amount, token, now),
                ),
                next_seq: (m.next_seq + 1) as u64,
                ..m
            },
            Ok(id),
        )
    }
}

/// What `fund_escrow` does to the state: only the depositor moves an
/// existing escrow from Pending to Funded; any other caller or state is
/// refused and nothing changes.
pub open spec fn fund_escrow_spec(m: ContractModel, id: EscrowId, caller: Address) -> (
    ContractModel,
    Result<(), EscrowError>,
) {
    if !m.escrows.dom().contains(id) {
        (m, Err(EscrowError::EscrowNotFound))
    } else {
        let e = m.escrows[id];
        if caller != e.depositor {
            (m, Err(EscrowError::NotAuthorized))
        } else if !(e.status is Pending) {
            (m, Err(EscrowError::InvalidState))
        } else {
            (
                ContractModel {
                    escrows: m.escrows.insert(
                        id,
                        EscrowModel { status: EscrowStatus::Funded, ..e },
                    ),
                    ..m
                },
                Ok(()),
            )
        }
    }
}

/// What `approve_release` does to the state: on a Funded escrow, a party
/// that has not yet approved this target records one approval; the moment
/// the target's distinct-approver count reaches the quorum of two, the
/// escrow is Released. Approvals toward different targets never combine,
/// and any failure changes nothing.
pub open spec fn approve_release_spec(
    m: ContractModel,
    id: EscrowId,
    caller: Address,
    release_to: Address,
) -> (ContractModel, Result<(), EscrowError>) {
    if !m.escrows.dom().contains(id) {
        (m, Err(EscrowError::EscrowNotFound))
    } else {
        let e = m.escrows[id];
        if !(e.status is Funded) {
            (m, Err(EscrowError::InvalidState))
        } else if !e.is_party(caller) {
            (m, Err(EscrowError::NotAuthorized))
        } else if !e.is_primary_party(release_to) {
            (m, Err(EscrowError::InvalidSigner))
        } else if has_approved(m.approvals, id, release_to, caller) {
            (m, Err(EscrowError::AlreadySigned))
        } else {
            let approvals = m.approvals.push(
                ApprovalRecord { escrow: id, release_to, signer: caller },
            );
            if approval_count(approvals, id, release_to) >= 2 {
                (
                    ContractModel {
                        approvals,
                        escrows: m.escrows.insert(
                            id,
                            EscrowModel { status: EscrowStatus::Released, ..e },
                        ),
                        ..m
                    },
                    Ok(()),
                )
            } else {
                (ContractModel { approvals, ..m }, Ok(()))
            }
        }
    }
}

/// What `get_approval_count` answers: the number of distinct signers that
/// have approved releasing this escrow to this target.
pub open spec fn approval_count_spec(m: ContractModel, id: EscrowId, release_to: Address) -> Result<
    u32,
    EscrowError,
> {
    if !m.escrows.dom().contains(id) {
        Err(EscrowError::EscrowNotFound)
    } else {
        Ok(approval_count(m.approvals, id, release_to) as u32)
    }
}

/// What `initiate_dispute` does to the state: a primary party — never the
/// arbiter — freezes a Funded escrow under a non-empty reason; any failure
/// changes nothing.
pub open spec fn initiate_dispute_spec(
    m: ContractModel,
    id: EscrowId,
    caller: Address,
    reason: Seq<char>,
) -> (ContractModel, Result<(), EscrowError>) {
    if !m.escrows.dom().contains(id) {
        (m, Err(EscrowError::EscrowNotFound))
    } else {
        let e = m.escrows[id];
        if !(e.status is Funded) {
            (m, Err(EscrowError::InvalidState))
        } else if !e.is_primary_party(caller) {
            (m, Err(EscrowError::NotAuthorized))
        } else if reason.len() == 0 {
            (m, Err(EscrowError::EmptyDisputeReason))
        } else {
            (
                ContractModel {
                    escrows: m.escrows.insert(
                        id,
                        EscrowModel {
                            status: EscrowStatus::Disputed,
                            dispute_reason: Some(reason),
                            ..e
                        },
                    ),
                    ..m
                },
                Ok(()),
            )
        }
    }
}

/// What `resolve_dispute` does to the state: the arbiter, and nobody else,
/// settles a Disputed escrow, releasing the funds to the chosen party and
/// clearing the dispute reason; releasing to the depositor is the refund
/// outcome. Any failure changes nothing.
pub open spec fn resolve_dispute_spec(
    m: ContractModel,
    id: EscrowId,
    caller: Address,
    release_to: Address,
) -> (ContractModel, Result<(), EscrowError>) {
    if !m.escrows.dom().contains(id) {
        (m, Err(EscrowError::EscrowNotFound))
    } else {
        let e = m.escrows[id];
        if !(e.status is Disputed) {
            (m, Err(EscrowError::InvalidState))
        } else if caller != e.arbiter {
            (m, Err(EscrowError::NotAuthorized))
        } else {
            (
                ContractModel {
                    escrows: m.escrows.insert(
                        id,
                        EscrowModel {
                            status: EscrowStatus::Released,
                            dispute_reason: None,
                            ..e
                        },
                    ),
                    ..m
                },
                Ok(()),
            )
        }
    }
}

impl ContractModel {
    /// Writing a well-formed escrow back under its own, already stored key
    /// preserves the invariant, provided the approval counts allowed in its
    /// new status are respected.
    pub proof fn lemma_inv_upsert_escrow(m1: ContractModel, m2: ContractModel, id: EscrowId, e: EscrowModel)
        requires
            m1.inv(),
            e.wf(),
            e.id == id,
            m1.escrows.dom().contains(id),
            m2.agreements == m1.agreements,
            m2.approvals == m1.approvals,
            m2.next_seq == m1.next_seq,
            m2.escrows == m1.escrows.insert(id, e),
            e.status is Pending ==> forall|t: Address|
                approval_count(m1.approvals, id, t) == 0,
            (e.status is Funded || e.status is Disputed) ==> forall|t: Address|
                approval_count(m1.approvals, id, t) <= 1,
        ensures
            m2.inv(),
    {
        assert forall|i: int| 0 <= i < m2.approvals.len() implies m2.escrows.dom().contains(
            (#[trigger] m2.approvals[i]).escrow,
        ) by {
            assert(m1.escrows.dom().contains(m1.approvals[i].escrow));
        }
        assert forall|id2: EscrowId| m2.escrows.dom().contains(id2) implies (
        #[trigger] m2.escrows[id2]).wf() && m2.escrows[id2].id == id2 && id2.seq < m2.next_seq by {
            if id2 == id {
                assert(m1.escrows[id].id == id);
            } else {
                assert(m2.escrows[id2] == m1.escrows[id2]);
            }
        }
        assert forall|id2: EscrowId, t2: Address|
            m2.escrows.dom().contains(id2) && m2.escrows[id2].status is Pending
                implies #[trigger] approval_count(m2.approvals, id2, t2) == 0 by {
            if id2 != id {
                assert(m2.escrows[id2] == m1.escrows[id2]);
                assert(approval_count(m1.approvals, id2, t2) == 0);
            }
        }
        assert forall|id2: EscrowId, t2: Address|
            m2.escrows.dom().contains(id2) && (m2.escrows[id2].status is Funded
                || m2.escrows[id2].status is Disputed) implies #[trigger] approval_count(
            m2.approvals,
            id2,
            t2,
        ) <= 1 by {
            if id2 != id {
                assert(m2.escrows[id2] == m1.escrows[id2]);
                assert(approval_count(m1.approvals, id2, t2) <= 1);
            }
        }
        assert forall|id2: EscrowId, t2: Address| #[trigger] approval_count(m2.approvals, id2, t2)
            <= 2 by {
            assert(approval_count(m1.approvals, id2, t2) <= 2);
        }
    }
}

/// Creation never reuses a handle: every approval on record points at an
/// escrow whose handle was drawn below `next_seq`, so a handle drawn at
/// `next_seq` has no approvals.
pub proof fn lemma_fresh_escrow_no_approvals(m: ContractModel, id: EscrowId)
    requires
        m.inv(),
        id.seq >= m.next_seq,
    ensures
        forall|t: Address| #[trigger] approval_count(m.approvals, id, t) == 0,
{
    assert forall|i: int| 0 <= i < m.approvals.len() implies (#[trigger] m.approvals[i]).escrow
        != id by {
        let esc = m.approvals[i].escrow;
        assert(m.escrows.dom().contains(esc));
        assert(m.escrows[esc].id == esc);
        assert(esc.seq < m.next_seq);
    }
    assert forall|t: Address| #[trigger] approval_count(m.approvals, id, t) == 0 by {
        lemma_approval_count_zero(m.approvals, id, t);
    }
}

/// `create_escrow` preserves the contract invariant.
pub proof fn lemma_create_escrow_preserves_inv(
    m: ContractModel,
    depositor: Address,
    beneficiary: Address,
    arbiter: Address,
    amount: i128,
    token: Address,
    now: u64,
)
    requires
        m.inv(),
        m.next_seq < u64::MAX,
    ensures
        create_escrow_spec(m, depositor, beneficiary, arbiter, amount, token, now).0.inv(),
{
    let (m2, r) = create_escrow_spec(m, depositor, beneficiary, arbiter, amount, token, now);
    if r is Ok {
        let id = escrow_id_of(m.next_seq, depositor, beneficiary, arbiter);
        lemma_fresh_escrow_no_approvals(m, id);
        assert forall|i: int| 0 <= i < m2.approvals.len() implies m2.escrows.dom().contains(
            (#[trigger] m2.approvals[i]).escrow,
        ) by {
            assert(m.escrows.dom().contains(m.approvals[i].escrow));
        }
        assert(m2.inv());
    }
}

/// `fund_escrow` preserves the contract invariant.
pub proof fn lemma_fund_escrow_preserves_inv(m: ContractModel, id: EscrowId, caller: Address)
    requires
        m.inv(),
    ensures
        fund_escrow_spec(m, id, caller).0.inv(),
{
    let (m2, r) = fund_escrow_spec(m, id, caller);
    if r is Ok {
        let e = m.escrows[id];
        assert forall|t: Address| #[trigger] approval_count(m.approvals, id, t) == 0 by {
            assert(m.escrows.dom().contains(id) && m.escrows[id].status is Pending);
        }
        ContractModel::lemma_inv_upsert_escrow(
            m,
            m2,
            id,
            EscrowModel { status: EscrowStatus::Funded, ..e },
        );
    }
}

/// `approve_release` preserves the contract invariant.
pub proof fn lemma_approve_release_preserves_inv(
    m: ContractModel,
    id: EscrowId,
    caller: Address,
    release_to: Address,
)
    requires
        m.inv(),
    ensures
        approve_release_spec(m, id, caller, release_to).0.inv(),
{
    let (m2, r) = approve_release_spec(m, id, caller, release_to);
    if r is Ok {
        let e = m.escrows[id];
        let rec = ApprovalRecord { escrow: id, release_to, signer: caller };
        let approvals = m.approvals.push(rec);
        // No triple repeats: the new one was not on record.
        assert forall|i: int, j: int| 0 <= i < j < approvals.len() implies approvals[i]
            != approvals[j] by {
            if j == m.approvals.len() {
                assert(approvals[i] == m.approvals[i]);
                if approvals[i] == rec {
                    assert(has_approved(m.approvals, id, release_to, caller));
                }
            } else {
                assert(approvals[i] == m.approvals[i]);
                assert(approvals[j] == m.approvals[j]);
            }
        }
        // Every approval still points at a stored escrow.
        assert forall|i: int| 0 <= i < approvals.len() implies m2.escrows.dom().contains(
            (#[trigger] approvals[i]).escrow,
        ) by {
            if i < m.approvals.len() {
                assert(approvals[i] == m.approvals[i]);
                assert(m.escrows.dom().contains(m.approvals[i].escrow));
            } else {
                assert(approvals[i] == rec);
            }
        }
        // How every count changed: by one for the approved pair, not at all
        // for any other.
        assert forall|id2: EscrowId, t2: Address| #[trigger] approval_count(approvals, id2, t2)
            == approval_count(m.approvals, id2, t2) + (
        if id2 == id && t2 == release_to {
            1int
        } else {
            0int
        }) by {
            lemma_approval_count_push(m.approvals, rec, id2, t2);
        }
        assert(approval_count(m.approvals, id, release_to) <= 1);
        assert(m2.inv());
    }
}

/// Count the approvals on record for this escrow and target.
fn count_approvals(v: &Vec<ApprovalRecord>, id: &EscrowId, release_to: &Address) -> (n: usize)
    ensures
        n == approval_count(v@, *id, *release_to),
{
    let len = v.len();
    let mut n: usize = 0;
    let mut i: usize = 0;
    while i < len
        invariant
            len == v@.len(),
            0 <= i <= len,
            n <= i,
            n == approval_count(v@.take(i as int), *id, *release_to),
        decreases len - i,
    {
        proof {
            assert(v@.take((i + 1) as int).drop_last() =~= v@.take(i as int));
            assert(v@.take((i + 1) as int).last() == v@[i as int]);
        }
        if v[i].escrow == *id && v[i].release_to == *release_to {
            n = n + 1;
        }
        i = i + 1;
    }
    proof {
        assert(v@.take(len as int) =~= v@);
    }
    n
}

/// Whether this signer's approval of this target is already on record.
fn find_approval(
    v: &Vec<ApprovalRecord>,
    id: &EscrowId,
    release_to: &Address,
    signer: &Address,
) -> (r: bool)
    ensures
        r == has_approved(v@, *id, *release_to, *signer),
{
    let len = v.len();
    let mut i: usize = 0;
    while i < len
        invariant
            len == v@.len(),
            0 <= i <= len,
            forall|j: int|
                0 <= j < i ==> v@[j] != (ApprovalRecord {
                    escrow: *id,
                    release_to: *release_to,
                    signer: *signer,
                }),
        decreases len - i,
    {
        if v[i].escrow == *id && v[i].release_to == *release_to && v[i].signer == *signer {
            proof {
                assert(v@[i as int] == (ApprovalRecord {
                    escrow: *id,
                    release_to: *release_to,
                    signer: *signer,
                }));
            }
            return true;
        }
        i = i + 1;
    }
    false
}

impl Contract {
    /// Open a security-deposit escrow among three pairwise distinct
    /// parties, holding a positive amount of the given token. Returns the
    /// fresh handle; the escrow waits in Pending for the depositor to fund
    /// it.
    pub fn create_escrow(
        &mut self,
        depositor: Address,
        beneficiary: Address,
        arbiter: Address,
        amount: i128,
        token: Address,
        now: u64,
    ) -> (r: Result<EscrowId, EscrowError>)
        requires
            old(self).wf(),
            old(self)@.next_seq < u64::MAX,
        ensures
            final(self).wf(),
            (final(self)@, r) == create_escrow_spec(
                old(self)@,
                depositor,
                beneficiary,
                arbiter,
                amount,
                token,
                now,
            ),
    {
        if amount <= 0 {
            return Err(EscrowError::InsufficientFunds);
        }
        if depositor == beneficiary || depositor == arbiter || beneficiary == arbiter {
            return Err(EscrowError::InvalidSigner);
        }
        let id = EscrowId {
            seq: self.next_seq,
            depositor_tag: depositor.0,
            beneficiary_tag: beneficiary.0,
            arbiter_tag: arbiter.0,
        };
        let record = Escrow {
            id,
            depositor,
            beneficiary,
            arbiter,
            amount,
            token,
            status: EscrowStatus::Pending,
            created_at: now,
            dispute_reason: None,
        };
        let ghost s0 = self.escrows@;
        proof {
            lemma_keyed_map_chars(s0, escrow_key(), escrow_val());
            lemma_keyed_map_push(s0, escrow_key(), escrow_val(), record);
            assert forall|i: int, j: int|
                0 <= i < j < s0.push(record).len() implies escrow_key()(
                s0.push(record)[i],
            ) != escrow_key()(s0.push(record)[j]) by {
                if j == s0.len() {
                    assert(s0.push(record)[i] == s0[i]);
                    assert(self@.escrows.dom().contains(s0[i].id));
                    assert(self@.escrows[s0[i].id].id == s0[i].id);
                    assert(s0[i].id.seq < self.next_seq);
                } else {
                    assert(s0.push(record)[i] == s0[i]);
                    assert(s0.push(record)[j] == s0[j]);
                }
            }
            lemma_create_escrow_preserves_inv(
                old(self)@,
                depositor,
                beneficiary,
                arbiter,
                amount,
                token,
                now,
            );
        }
        self.escrows.push(record);
        self.next_seq = self.next_seq + 1;
        Ok(id)
    }

    /// The depositor moves a Pending escrow to Funded.
    pub fn fund_escrow(&mut self, escrow_id: &EscrowId, caller: &Address) -> (r: Result<
        (),
        EscrowError,
    >)
        requires
            old(self).wf(),
        ensures
            final(self).wf(),
            (final(self)@, r) == fund_escrow_spec(old(self)@, *escrow_id, *caller),
    {
        proof {
            lemma_keyed_map_chars(self.escrows@, escrow_key(), escrow_val());
        }
        let i = match find_escrow_index(&self.escrows, escrow_id) {
            Some(i) => i,
            None => {
                return Err(EscrowError::EscrowNotFound);
            },
        };
        if !(self.escrows[i].depositor == *caller) {
            return Err(EscrowError::NotAuthorized);
        }
        if !(self.escrows[i].status == EscrowStatus::Pending) {
            return Err(EscrowError::InvalidState);
        }
        let mut record = self.escrows[i].clone();
        record.status = EscrowStatus::Funded;
        proof {
            lemma_keyed_map_update(self.escrows@, escrow_key(), escrow_val(), i as int, record);
            lemma_fund_escrow_preserves_inv(old(self)@, *escrow_id, *caller);
        }
        replace_at(&mut self.escrows, i, record);
        Ok(())
    }

    /// A party approves releasing a Funded escrow to the depositor or the
    /// beneficiary; once two distinct parties approve the same target, the
    /// escrow is Released. Approving twice, or toward different targets,
    /// never combines.
    pub fn approve_release(
        &mut self,
        escrow_id: &EscrowId,
        caller: &Address,
        release_to: Address,
    ) -> (r: Result<(), EscrowError>)
        requires
            old(self).wf(),
        ensures
            final(self).wf(),
            (final(self)@, r) == approve_release_spec(old(self)@, *escrow_id, *caller, release_to),
    {
        proof {
            lemma_keyed_map_chars(self.escrows@, escrow_key(), escrow_val());
        }
        let i = match find_escrow_index(&self.escrows, escrow_id) {
            Some(i) => i,
            None => {
                return Err(EscrowError::EscrowNotFound);
            },
        };
        if !(self.escrows[i].status == EscrowStatus::Funded) {
            return Err(EscrowError::InvalidState);
        }
        if !(self.escrows[i].depositor == *caller || self.escrows[i].beneficiary == *caller
            || self.escrows[i].arbiter == *caller) {
            return Err(EscrowError::NotAuthorized);
        }
        if !(self.escrows[i].depositor == release_to || self.escrows[i].beneficiary
            == release_to) {
            return Err(EscrowError::InvalidSigner);
        }
        if find_approval(&self.approvals, escrow_id, &release_to, caller) {
            return Err(EscrowError::AlreadySigned);
        }
        let rec = ApprovalRecord { escrow: *escrow_id, release_to, signer: *caller };
        let n = count_approvals(&self.approvals, escrow_id, &release_to);
        proof {
            assert(approval_count(self@.approvals, *escrow_id, release_to) <= 1);
            lemma_approval_count_push(self.approvals@, rec, *escrow_id, release_to);
            lemma_approve_release_preserves_inv(old(self)@, *escrow_id, *caller, release_to);
        }
        self.approvals.push(rec);
        if n + 1 >= 2 {
            let mut record = self.escrows[i].clone();
            record.status = EscrowStatus::Released;
            proof {
                lemma_keyed_map_update(
                    self.escrows@,
                    escrow_key(),
                    escrow_val(),
                    i as int,
                    record,
                );
            }
            replace_at(&mut self.escrows, i, record);
        }
        Ok(())
    }

    /// The stored escrow under this handle, or EscrowNotFound.
    pub fn get_escrow(&self, escrow_id: &EscrowId) -> (r: Result<Escrow, EscrowError>)
        requires
            self.wf(),
        ensures
            match r {
                Ok(e) => self@.escrow_lookup(*escrow_id) == Some(e@),
                Err(err) => self@.escrow_lookup(*escrow_id) is None && err
                    == EscrowError::EscrowNotFound,
            },
    {
        proof {
            lemma_keyed_map_chars(self.escrows@, escrow_key(), escrow_val());
        }
        match find_escrow_index(&self.escrows, escrow_id) {
            Some(i) => Ok(self.escrows[i].clone()),
            None => Err(EscrowError::EscrowNotFound),
        }
    }

    /// How many distinct signers have approved releasing this escrow to
    /// this target.
    pub fn get_approval_count(&self, escrow_id: &EscrowId, release_to: &Address) -> (r: Result<
        u32,
        EscrowError,
    >)
        requires
            self.wf(),
        ensures
            r == approval_count_spec(self@, *escrow_id, *release_to),
    {
        proof {
            lemma_keyed_map_chars(self.escrows@, escrow_key(), escrow_val());
        }
        if find_escrow_index(&self.escrows, escrow_id).is_none() {
            return Err(EscrowError::EscrowNotFound);
        }
        let n = count_approvals(&self.approvals, escrow_id, release_to);
        proof {
            assert(approval_count(self@.approvals, *escrow_id, *release_to) <= 2);
        }
        Ok(n as u32)
    }

    /// A primary party freezes a Funded escrow under a non-empty reason;
    /// the arbiter cannot, and an empty reason is refused.
    pub fn initiate_dispute(
        &mut self,
        escrow_id: &EscrowId,
        caller: &Address,
        reason: String,
    ) -> (r: Result<(), EscrowError>)
        requires
            old(self).wf(),
        ensures
            final(self).wf(),
            (final(self)@, r) == initiate_dispute_spec(old(self)@, *escrow_id, *caller, reason@),
    {
        proof {
            lemma_keyed_map_chars(self.escrows@, escrow_key(), escrow_val());
        }
        let i = match find_escrow_index(&self.escrows, escrow_id) {
            Some(i) => i,
            None => {
                return Err(EscrowError::EscrowNotFound);
            },
        };
        if !(self.escrows[i].status == EscrowStatus::Funded) {
            return Err(EscrowError::InvalidState);
        }
        if !(self.escrows[i].depositor == *caller || self.escrows[i].beneficiary == *caller) {
            return Err(EscrowError::NotAuthorized);
        }
        if reason.as_str().is_empty() {
            return Err(EscrowError::EmptyDisputeReason);
        }
        let ghost reason_view = reason@;
        let mut record = self.escrows[i].clone();
        record.status = EscrowStatus::Disputed;
        record.dispute_reason = Some(reason);
        proof {
            lemma_keyed_map_update(self.escrows@, escrow_key(), escrow_val(), i as int, record);
            lemma_initiate_dispute_preserves_inv(old(self)@, *escrow_id, *caller, reason_view);
        }
        replace_at(&mut self.escrows, i, record);
        Ok(())
    }

    /// The arbiter settles a Disputed escrow: the funds are Released to the
    /// chosen party — releasing to the depositor is the refund outcome —
    /// and the dispute reason is cleared.
    pub fn resolve_dispute(
        &mut self,
        escrow_id: &EscrowId,
        caller: &Address,
        release_to: Address,
    ) -> (r: Result<(), EscrowError>)
        requires
            old(self).wf(),
        ensures
            final(self).wf(),
            (final(self)@, r) == resolve_dispute_spec(old(self)@, *escrow_id, *caller, release_to),
    {
        proof {
            lemma_keyed_map_chars(self.escrows@, escrow_key(), escrow_val());
        }
        let i = match find_escrow_index(&self.escrows, escrow_id) {
            Some(i) => i,
            None => {
                return Err(EscrowError::EscrowNotFound);
            },
        };
        if !(self.escrows[i].status == EscrowStatus::Disputed) {
            return Err(EscrowError::InvalidState);
        }
        if !(self.escrows[i].arbiter == *caller) {
            return Err(EscrowError::NotAuthorized);
        }
        let mut record = self.escrows[i].clone();
        record.status = EscrowStatus::Released;
        record.dispute_reason = None;
        proof {
            lemma_keyed_map_update(self.escrows@, escrow_key(), escrow_val(), i as int, record);
            lemma_resolve_dispute_preserves_inv(old(self)@, *escrow_id, *caller, release_to);
        }
        replace_at(&mut self.escrows, i, record);
        Ok(())
    }

    /// Whether this escrow is currently Disputed.
    pub fn is_escrow_disputed(&self, escrow_id: &EscrowId) -> (r: Result<bool, EscrowError>)
        requires
            self.wf(),
        ensures
            match r {
                Ok(b) => self@.escrows.dom().contains(*escrow_id) && b == (
                self@.escrows[*escrow_id].status is Disputed),
                Err(err) => !self@.escrows.dom().contains(*escrow_id) && err
                    == EscrowError::EscrowNotFound,
            },
    {
        proof {
            lemma_keyed_map_chars(self.escrows@, escrow_key(), escrow_val());
        }
        match find_escrow_index(&self.escrows, escrow_id) {
            Some(i) => Ok(self.escrows[i].status == EscrowStatus::Disputed),
            None => Err(EscrowError::EscrowNotFound),
        }
    }

    /// The dispute reason of this escrow, present exactly while it is
    /// Disputed.
    pub fn get_dispute_info(&self, escrow_id: &EscrowId) -> (r: Result<Option<String>, EscrowError>)
        requires
            self.wf(),
        ensures
            match r {
                Ok(info) => self@.escrows.dom().contains(*escrow_id) && (match info {
                    Some(s) => self@.escrows[*escrow_id].dispute_reason == Some(s@),
                    None => self@.escrows[*escrow_id].dispute_reason is None,
                }),
                Err(err) => !self@.escrows.dom().contains(*escrow_id) && err
                    == EscrowError::EscrowNotFound,
            },
    {
        proof {
            lemma_keyed_map_chars(self.escrows@, escrow_key(), escrow_val());
        }
        let i = match find_escrow_index(&self.escrows, escrow_id) {
            Some(i) => i,
            None => {
                return Err(EscrowError::EscrowNotFound);
            },
        };
        match &self.escrows[i].dispute_reason {
            Some(s) => Ok(Some(s.clone())),
            None => Ok(None),
        }
    }
}

/// `initiate_dispute` preserves the contract invariant.
pub proof fn lemma_initiate_dispute_preserves_inv(
    m: ContractModel,
    id: EscrowId,
    caller: Address,
    reason: Seq<char>,
)
    requires
        m.inv(),
    ensures
        initiate_dispute_spec(m, id, caller, reason).0.inv(),
{
    let (m2, r) = initiate_dispute_spec(m, id, caller, reason);
    if r is Ok {
        let e = m.escrows[id];
        assert forall|t: Address| #[trigger] approval_count(m.approvals, id, t) <= 1 by {
            assert(m.escrows.dom().contains(id) && m.escrows[id].status is Funded);
        }
        ContractModel::lemma_inv_upsert_escrow(
            m,
            m2,
            id,
            EscrowModel { status: EscrowStatus::Disputed, dispute_reason: Some(reason), ..e },
        );
    }
}

/// `resolve_dispute` preserves the contract invariant.
pub proof fn lemma_resolve_dispute_preserves_inv(
    m: ContractModel,
    id: EscrowId,
    caller: Address,
    release_to: Address,
)
    requires
        m.inv(),
    ensures
        resolve_dispute_spec(m, id, caller, release_to).0.inv(),
{
    let (m2, r) = resolve_dispute_spec(m, id, caller, release_to);
    if r is Ok {
        let e = m.escrows[id];
        ContractModel::lemma_inv_upsert_escrow(
            m,
            m2,
            id,
            EscrowModel { status: EscrowStatus::Released, dispute_reason: None, ..e },
        );
    }
}

} // verus!
