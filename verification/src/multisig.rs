//! Multisig approval engine for upgrade flows.  Proposal ids come from a
//! monotonic counter and stay stable handles for approval and execution.
use vstd::prelude::*;
use crate::types::{Address, seq_has, contains_address, copy_addresses};

verus! {

/// Signers and approval threshold.
#[derive(Debug)]
pub struct MultiSigConfig {
    pub signers: Vec<Address>,
    pub threshold: u32,
}

/// A multisig proposal.
#[derive(Debug)]
pub struct Proposal {
    pub approvals: Vec<Address>,
    pub executed: bool,
    /// Expiry timestamp; 0 means it never expires.
    pub expiry: u64,
    pub cancelled: bool,
}

/// Why a multisig operation was refused.
#[derive(Clone, Copy, Debug, PartialEq, Eq, Structural)]
pub enum MultiSigError {
    NotSigner,
    AlreadyApproved,
    ProposalNotFound,
    ProposalAlreadyExists,
    AlreadyExecuted,
    ThresholdNotMet,
    InvalidThreshold,
    ContractPaused,
    StateInconsistent,
    ProposalExpired,
    ProposalCancelled,
}

/// Everything the multisig keeps in storage.
#[derive(Debug)]
pub struct MultiSig {
    /// Signers and threshold, once initialised.
    pub config: Option<MultiSigConfig>,
    /// Proposals keyed by id (first match wins).
    pub proposals: Vec<(u64, Proposal)>,
    /// Id of the last proposal created.
    pub proposal_counter: u64,
    /// Whether execution is paused.
    pub paused: bool,
}

/// The values of a proposal.
pub struct ProposalView {
    pub approvals: Seq<Address>,
    pub executed: bool,
    pub expiry: u64,
    pub cancelled: bool,
}

/// The values of a proposal.
pub open spec fn pview(p: Proposal) -> ProposalView {
    ProposalView { approvals: p.approvals@, executed: p.executed, expiry: p.expiry, cancelled: p.cancelled }
}

/// Index of the first proposal stored under `id`.
pub open spec fn ms_index(ps: Seq<(u64, Proposal)>, id: u64) -> Option<int>
    decreases ps.len(),
{
    if ps.len() == 0 {
        None
    } else {
        match ms_index(ps.drop_last(), id) {
            Some(i) => Some(i),
            None => if ps.last().0 == id {
                Some(ps.len() - 1)
            } else {
                None
            },
        }
    }
}

/// The proposal stored under `id`.
pub open spec fn proposal_at(ms: &MultiSig, id: u64) -> Option<ProposalView> {
    match ms_index(ms.proposals@, id) {
        Some(i) => Some(pview(ms.proposals@[i].1)),
        None => None,
    }
}

/// Whether a proposal has expired at `now`: a non-zero expiry that `now` has
/// reached.
pub open spec fn expired(p: ProposalView, now: u64) -> bool {
    p.expiry != 0 && now >= p.expiry
}

/// Whether the stored configuration violates `0 < threshold <= signers`.
pub open spec fn inconsistent(ms: &MultiSig) -> bool {
    match ms.config {
        Some(c) => c.threshold == 0 || c.threshold > c.signers@.len(),
        None => false,
    }
}

/// Whether `a` is a configured signer.
pub open spec fn is_signer(ms: &MultiSig, a: Address) -> bool {
    ms.config matches Some(c) && seq_has(c.signers@, a)
}

/// Whether a proposal may execute at `now`.
pub open spec fn executable(ms: &MultiSig, id: u64, now: u64) -> bool {
    if ms.paused || inconsistent(ms) {
        false
    } else {
        let p = proposal_at(ms, id)->0;
        !p.executed && !p.cancelled && !expired(p, now) && p.approvals.len() >= ms.config->0.threshold
    }
}

/// Whether `can_execute` can be asked about `id` without a missing
/// configuration or proposal.
pub open spec fn can_execute_defined(ms: &MultiSig, id: u64) -> bool {
    ms.paused || inconsistent(ms) || (ms.config is Some && proposal_at(ms, id) is Some)
}

/// `ms2` is `ms1` with the proposal under `id` set to `p`; all other proposal
/// lookups are unchanged and so is everything else.
pub open spec fn ms_proposal_set(ms1: &MultiSig, ms2: &MultiSig, id: u64, p: ProposalView) -> bool {
    &&& proposal_at(ms2, id) == Some(p)
    &&& forall|k: u64| k != id ==> #[trigger] proposal_at(ms2, k) == proposal_at(ms1, k)
    &&& ms2.config == ms1.config
    &&& ms2.proposal_counter == ms1.proposal_counter
    &&& ms2.paused == ms1.paused
}

proof fn lemma_ms_index_char(ps: Seq<(u64, Proposal)>, id: u64)
    ensures
        ms_index(ps, id) matches Some(i) ==> 0 <= i < ps.len() && ps[i].0 == id && forall|j: int|
            0 <= j < i ==> (#[trigger] ps[j]).0 != id,
        ms_index(ps, id) is None ==> forall|j: int| 0 <= j < ps.len() ==> (#[trigger] ps[j]).0 != id,
    decreases ps.len(),
{
    if ps.len() > 0 {
        let p = ps.drop_last();
        lemma_ms_index_char(p, id);
        if ms_index(p, id) is Some {
            let i = ms_index(p, id)->0;
            assert(p[i] == ps[i]);
            assert forall|j: int| 0 <= j < i implies (#[trigger] ps[j]).0 != id by {
                assert(p[j] == ps[j]);
            }
        } else {
            assert forall|j: int| 0 <= j < ps.len() - 1 implies (#[trigger] ps[j]).0 != id by {
                assert(p[j] == ps[j]);
            }
        }
    }
}

proof fn lemma_ms_index_is(ps: Seq<(u64, Proposal)>, id: u64, i: int)
    requires
        0 <= i < ps.len(),
        ps[i].0 == id,
        forall|j: int| 0 <= j < i ==> (#[trigger] ps[j]).0 != id,
    ensures
        ms_index(ps, id) == Some(i),
{
    lemma_ms_index_char(ps, id);
    match ms_index(ps, id) {
        Some(k) => {
            if k < i {
                assert(ps[k].0 != id);
            }
            if i < k {
                assert(ps[i].0 != id);
            }
        },
        None => {
            assert(ps[i].0 != id);
        },
    }
}

proof fn lemma_ms_frame(before: Seq<(u64, Proposal)>, after: Seq<(u64, Proposal)>, id: u64, other: u64)
    requires
        other != id,
        after.len() == before.len() || after.len() == before.len() + 1,
        forall|j: int| 0 <= j < before.len() && before[j].0 != id ==> #[trigger] after[j] == before[j],
        forall|j: int| 0 <= j < before.len() ==> (#[trigger] after[j]).0 == before[j].0,
        after.len() == before.len() + 1 ==> after.last().0 == id,
    ensures
        ms_index(after, other) == ms_index(before, other),
        ms_index(before, other) matches Some(i) ==> after[i] == before[i],
{
    lemma_ms_index_char(before, other);
    match ms_index(before, other) {
        Some(i) => {
            assert forall|j: int| 0 <= j < i implies (#[trigger] after[j]).0 != other by {
                assert(before[j].0 != other);
            }
            lemma_ms_index_is(after, other, i);
        },
        None => {
            lemma_ms_index_char(after, other);
            if ms_index(after, other) is Some {
                let k = ms_index(after, other)->0;
                if k < before.len() {
                    assert(before[k].0 != other);
                }
            }
        },
    }
}

fn copy_proposal(p: &Proposal) -> (r: Proposal)
    ensures
        pview(r) == pview(*p),
{
    Proposal { approvals: copy_addresses(&p.approvals), executed: p.executed, expiry: p.expiry, cancelled: p.cancelled }
}

impl MultiSig {
    /// Empty multisig storage.
    pub fn new() -> (ms: Self)
        ensures
            ms.config is None,
            ms.proposals@.len() == 0,
            ms.proposal_counter == 0,
            !ms.paused,
    {
        MultiSig { config: None, proposals: Vec::new(), proposal_counter: 0, paused: false }
    }

    fn find(&self, id: u64) -> (r: Option<usize>)
        ensures
            r matches Some(i) ==> ms_index(self.proposals@, id) == Some(i as int) && i < self.proposals@.len()
                && self.proposals@[i as int].0 == id,
            r is None ==> ms_index(self.proposals@, id) is None,
    {
        let mut i: usize = 0;
        while i < self.proposals.len()
            invariant
                0 <= i <= self.proposals.len(),
                forall|j: int| 0 <= j < i ==> (#[trigger] self.proposals@[j]).0 != id,
            decreases self.proposals.len() - i,
        {
            if self.proposals[i].0 == id {
                proof {
                    lemma_ms_index_is(self.proposals@, id, i as int);
                }
                return Some(i);
            }
            i = i + 1;
        }
        proof {
            lemma_ms_index_char(self.proposals@, id);
            if ms_index(self.proposals@, id) is Some {
                let k = ms_index(self.proposals@, id)->0;
                assert(self.proposals@[k].0 != id);
            }
        }
        None
    }

    /// Stores `p` under `id` (replacing or appending).
    fn put(&mut self, id: u64, p: Proposal)
        ensures
            ms_proposal_set(old(self), final(self), id, pview(p)),
    {
        let ghost before = self.proposals@;
        let ghost pv = pview(p);
        match self.find(id) {
            Some(i) => {
                proof {
                    lemma_ms_index_char(before, id);
                }
                self.proposals.set(i, (id, p));
                proof {
                    lemma_ms_index_is(self.proposals@, id, i as int);
                    assert forall|k: u64| k != id implies #[trigger] proposal_at(final(self), k)
                        == proposal_at(old(self), k) by {
                        lemma_ms_frame(before, self.proposals@, id, k);
                    }
                }
            },
            None => {
                proof {
                    lemma_ms_index_char(before, id);
                }
                self.proposals.push((id, p));
                proof {
                    assert forall|j: int| 0 <= j < before.len() implies (#[trigger] self.proposals@[j]).0
                        != id by {
                        assert(self.proposals@[j] == before[j]);
                    }
                    lemma_ms_index_is(self.proposals@, id, before.len() as int);
                    assert forall|k: u64| k != id implies #[trigger] proposal_at(final(self), k)
                        == proposal_at(old(self), k) by {
                        lemma_ms_frame(before, self.proposals@, id, k);
                    }
                }
            },
        }
    }

    fn is_signer_exec(&self, a: Address) -> (r: bool)
        requires
            self.config is Some,
        ensures
            r == is_signer(self, a),
    {
        match &self.config {
            Some(c) => contains_address(&c.signers, a),
            None => false,
        }
    }

    fn proposal_expired(p: &Proposal, now: u64) -> (r: bool)
        ensures
            r == expired(pview(*p), now),
    {
        p.expiry != 0 && now >= p.expiry
    }

    /// Sets signers and threshold and restarts the proposal counter.
    /// Refused, with storage unchanged, unless `0 < threshold <= signers`.
    pub fn init(&mut self, signers: Vec<Address>, threshold: u32) -> (r: Result<(), MultiSigError>)
        ensures
            r is Err <==> threshold == 0 || threshold > signers@.len(),
            r matches Err(e) ==> e == MultiSigError::InvalidThreshold && *final(self) == *old(self),
            r is Ok ==> (final(self).config matches Some(c) && c.signers@ == signers@ && c.threshold
                == threshold),
            r is Ok ==> final(self).proposal_counter == 0 && final(self).proposals == old(self).proposals
                && final(self).paused == old(self).paused,
    {
        if threshold == 0 || threshold as usize > signers.len() {
            return Err(MultiSigError::InvalidThreshold);
        }
        self.config = Some(MultiSigConfig { signers, threshold });
        self.proposal_counter = 0;
        Ok(())
    }

    /// A signer opens a new proposal and receives its id, the next value of
    /// the counter.  Refused, with storage unchanged, when the proposer is
    /// not a signer or a proposal already sits under that id.  The caller
    /// authorises the proposer beforehand.
    pub fn propose(&mut self, proposer: Address, expiry: u64) -> (r: Result<u64, MultiSigError>)
        requires
            old(self).config is Some,
            old(self).proposal_counter < u64::MAX,
        ensures
            r is Err <==> !is_signer(old(self), proposer) || proposal_at(old(self), (old(self).proposal_counter
                + 1) as u64) is Some,
            r matches Err(e) ==> *final(self) == *old(self) && e == (if !is_signer(old(self), proposer) {
                MultiSigError::NotSigner
            } else {
                MultiSigError::ProposalAlreadyExists
            }),
            r matches Ok(id) ==> {
                &&& id == old(self).proposal_counter + 1
                &&& proposal_at(final(self), id) == Some(
                    ProposalView { approvals: Seq::empty(), executed: false, expiry, cancelled: false },
                )
                &&& forall|k: u64| k != id ==> #[trigger] proposal_at(final(self), k) == proposal_at(old(self), k)
                &&& final(self).proposal_counter == id
                &&& final(self).config == old(self).config
                &&& final(self).paused == old(self).paused
            },
    {
        if !self.is_signer_exec(proposer) {
            return Err(MultiSigError::NotSigner);
        }
        let counter: u64 = self.proposal_counter + 1;
        if self.find(counter).is_some() {
            return Err(MultiSigError::ProposalAlreadyExists);
        }
        let proposal = Proposal { approvals: Vec::new(), executed: false, expiry, cancelled: false };
        proof {
            assert(pview(proposal).approvals =~= Seq::<Address>::empty());
        }
        self.proposal_counter = counter;
        self.put(counter, proposal);
        Ok(counter)
    }

    /// A signer approves a proposal.  Refused, with storage unchanged, when
    /// the signer is not a signer, the proposal does not exist, was executed,
    /// was cancelled, has expired at `now`, or the signer already approved
    /// it.  Otherwise the signer is appended to its approvals.
    pub fn approve(&mut self, proposal_id: u64, signer: Address, now: u64) -> (r: Result<(), MultiSigError>)
        requires
            old(self).config is Some,
        ensures
            r == approve_outcome(old(self), proposal_id, signer, now),
            r is Err ==> *final(self) == *old(self),
            r is Ok ==> {
                let p = proposal_at(old(self), proposal_id)->0;
                ms_proposal_set(
                    old(self),
                    final(self),
                    proposal_id,
                    ProposalView { approvals: p.approvals.push(signer), ..p },
                )
            },
    {
        if !self.is_signer_exec(signer) {
            return Err(MultiSigError::NotSigner);
        }
        let i: usize = match self.find(proposal_id) {
            None => {
                return Err(MultiSigError::ProposalNotFound);
            },
            Some(i) => i,
        };
        if self.proposals[i].1.executed {
            return Err(MultiSigError::AlreadyExecuted);
        }
        if self.proposals[i].1.cancelled {
            return Err(MultiSigError::ProposalCancelled);
        }
        if Self::proposal_expired(&self.proposals[i].1, now) {
            return Err(MultiSigError::ProposalExpired);
        }
        if contains_address(&self.proposals[i].1.approvals, signer) {
            return Err(MultiSigError::AlreadyApproved);
        }
        let mut p = copy_proposal(&self.proposals[i].1);
        p.approvals.push(signer);
        self.put(proposal_id, p);
        Ok(())
    }

    /// Whether a proposal may execute at `now`: not paused, configuration
    /// consistent, not executed, not cancelled, not expired, and approved by
    /// at least the threshold.
    pub fn can_execute(&self, proposal_id: u64, now: u64) -> (r: bool)
        requires
            can_execute_defined(self, proposal_id),
        ensures
            r == executable(self, proposal_id, now),
    {
        if self.paused || self.is_state_inconsistent() {
            return false;
        }
        let threshold: u32 = match &self.config {
            Some(c) => c.threshold,
            None => 0,
        };
        let i: usize = match self.find(proposal_id) {
            Some(i) => i,
            None => {
                return false;
            },
        };
        let p = &self.proposals[i].1;
        if p.executed || p.cancelled {
            return false;
        }
        if Self::proposal_expired(p, now) {
            return false;
        }
        p.approvals.len() >= threshold as usize
    }

    /// Whether the proposal has expired at `now`.
    pub fn is_expired(&self, proposal_id: u64, now: u64) -> (r: bool)
        requires
            proposal_at(self, proposal_id) is Some,
        ensures
            r == expired(proposal_at(self, proposal_id)->0, now),
    {
        match self.find(proposal_id) {
            Some(i) => Self::proposal_expired(&self.proposals[i].1, now),
            None => false,
        }
    }

    /// Whether the proposal was cancelled.
    pub fn is_cancelled(&self, proposal_id: u64) -> (r: bool)
        requires
            proposal_at(self, proposal_id) is Some,
        ensures
            r == proposal_at(self, proposal_id)->0.cancelled,
    {
        match self.find(proposal_id) {
            Some(i) => self.proposals[i].1.cancelled,
            None => false,
        }
    }

    /// A signer cancels a proposal for good.  Refused, with storage
    /// unchanged, when the signer is not a signer, the proposal does not
    /// exist, was executed, or was already cancelled.
    pub fn cancel(&mut self, proposal_id: u64, signer: Address) -> (r: Result<(), MultiSigError>)
        requires
            old(self).config is Some,
        ensures
            r == cancel_outcome(old(self), proposal_id, signer),
            r is Err ==> *final(self) == *old(self),
            r is Ok ==> {
                let p = proposal_at(old(self), proposal_id)->0;
                ms_proposal_set(old(self), final(self), proposal_id, ProposalView { cancelled: true, ..p })
            },
    {
        if !self.is_signer_exec(signer) {
            return Err(MultiSigError::NotSigner);
        }
        let i: usize = match self.find(proposal_id) {
            None => {
                return Err(MultiSigError::ProposalNotFound);
            },
            Some(i) => i,
        };
        if self.proposals[i].1.executed {
            return Err(MultiSigError::AlreadyExecuted);
        }
        if self.proposals[i].1.cancelled {
            return Err(MultiSigError::ProposalCancelled);
        }
        let mut p = copy_proposal(&self.proposals[i].1);
        p.cancelled = true;
        self.put(proposal_id, p);
        Ok(())
    }

    /// Marks a proposal executed.  Refused, with storage unchanged, when it
    /// does not exist, was already executed, or cannot execute at `now`.
    pub fn mark_executed(&mut self, proposal_id: u64, now: u64) -> (r: Result<(), MultiSigError>)
        requires
            proposal_at(old(self), proposal_id) is Some ==> can_execute_defined(old(self), proposal_id),
        ensures
            r == mark_executed_outcome(old(self), proposal_id, now),
            r is Err ==> *final(self) == *old(self),
            r is Ok ==> {
                let p = proposal_at(old(self), proposal_id)->0;
                ms_proposal_set(old(self), final(self), proposal_id, ProposalView { executed: true, ..p })
            },
    {
        let i: usize = match self.find(proposal_id) {
            None => {
                return Err(MultiSigError::ProposalNotFound);
            },
            Some(i) => i,
        };
        if self.proposals[i].1.executed {
            return Err(MultiSigError::AlreadyExecuted);
        }
        if !self.can_execute(proposal_id, now) {
            return Err(MultiSigError::ThresholdNotMet);
        }
        let mut p = copy_proposal(&self.proposals[i].1);
        p.executed = true;
        self.put(proposal_id, p);
        Ok(())
    }

    /// A signer pauses execution.  Refused, with storage unchanged, when the
    /// caller is not a signer.
    pub fn pause(&mut self, signer: Address) -> (r: Result<(), MultiSigError>)
        requires
            old(self).config is Some,
        ensures
            r is Err <==> !is_signer(old(self), signer),
            r matches Err(e) ==> e == MultiSigError::NotSigner && *final(self) == *old(self),
            r is Ok ==> final(self).paused && final(self).config == old(self).config && final(self).proposals
                == old(self).proposals && final(self).proposal_counter == old(self).proposal_counter,
    {
        if !self.is_signer_exec(signer) {
            return Err(MultiSigError::NotSigner);
        }
        self.paused = true;
        Ok(())
    }

    /// A signer resumes execution.  Refused, with storage unchanged, when the
    /// caller is not a signer.
    pub fn unpause(&mut self, signer: Address) -> (r: Result<(), MultiSigError>)
        requires
            old(self).config is Some,
        ensures
            r is Err <==> !is_signer(old(self), signer),
            r matches Err(e) ==> e == MultiSigError::NotSigner && *final(self) == *old(self),
            r is Ok ==> !final(self).paused && final(self).config == old(self).config && final(self).proposals
                == old(self).proposals && final(self).proposal_counter == old(self).proposal_counter,
    {
        if !self.is_signer_exec(signer) {
            return Err(MultiSigError::NotSigner);
        }
        self.paused = false;
        Ok(())
    }

    /// Whether execution is paused.
    pub fn is_contract_paused(&self) -> (r: bool)
        ensures
            r == self.paused,
    {
        self.paused
    }

    /// Whether the stored configuration violates `0 < threshold <= signers`.
    pub fn is_state_inconsistent(&self) -> (r: bool)
        ensures
            r == inconsistent(self),
    {
        match &self.config {
            Some(c) => c.threshold == 0 || c.threshold as usize > c.signers.len(),
            None => false,
        }
    }

    /// A copy of the configuration, if any.
    pub fn get_config_opt(&self) -> (r: Option<MultiSigConfig>)
        ensures
            r is Some <==> self.config is Some,
            r matches Some(c) ==> c.signers@ == self.config->0.signers@ && c.threshold == self.config->0.threshold,
    {
        match &self.config {
            Some(c) => Some(MultiSigConfig { signers: copy_addresses(&c.signers), threshold: c.threshold }),
            None => None,
        }
    }

    /// A copy of the proposal stored under `proposal_id`, if any.
    pub fn get_proposal_opt(&self, proposal_id: u64) -> (r: Option<Proposal>)
        ensures
            r is Some <==> proposal_at(self, proposal_id) is Some,
            r matches Some(p) ==> pview(p) == proposal_at(self, proposal_id)->0,
    {
        match self.find(proposal_id) {
            Some(i) => Some(copy_proposal(&self.proposals[i].1)),
            None => None,
        }
    }

    /// Replaces the configuration.  Refused, with storage unchanged, unless
    /// `0 < threshold <= signers`.
    pub fn set_config(&mut self, config: MultiSigConfig) -> (r: Result<(), MultiSigError>)
        ensures
            r is Err <==> config.threshold == 0 || config.threshold > config.signers@.len(),
            r matches Err(e) ==> e == MultiSigError::InvalidThreshold && *final(self) == *old(self),
            r is Ok ==> final(self).config == Some(config) && final(self).proposals == old(self).proposals
                && final(self).proposal_counter == old(self).proposal_counter && final(self).paused == old(self).paused,
    {
        if config.threshold == 0 || config.threshold as usize > config.signers.len() {
            return Err(MultiSigError::InvalidThreshold);
        }
        self.config = Some(config);
        Ok(())
    }

    /// Removes the configuration.
    pub fn clear_config(&mut self)
        ensures
            final(self).config is None,
            final(self).proposals == old(self).proposals,
            final(self).proposal_counter == old(self).proposal_counter,
            final(self).paused == old(self).paused,
    {
        self.config = None;
    }
}

/// What `approve` decides.
pub open spec fn approve_outcome(ms: &MultiSig, id: u64, signer: Address, now: u64) -> Result<(), MultiSigError> {
    if !is_signer(ms, signer) {
        Err(MultiSigError::NotSigner)
    } else {
        match proposal_at(ms, id) {
            None => Err(MultiSigError::ProposalNotFound),
            Some(p) => if p.executed {
                Err(MultiSigError::AlreadyExecuted)
            } else if p.cancelled {
                Err(MultiSigError::ProposalCancelled)
            } else if expired(p, now) {
                Err(MultiSigError::ProposalExpired)
            } else if seq_has(p.approvals, signer) {
                Err(MultiSigError::AlreadyApproved)
            } else {
                Ok(())
            },
        }
    }
}

/// What `cancel` decides.
pub open spec fn cancel_outcome(ms: &MultiSig, id: u64, signer: Address) -> Result<(), MultiSigError> {
    if !is_signer(ms, signer) {
        Err(MultiSigError::NotSigner)
    } else {
        match proposal_at(ms, id) {
            None => Err(MultiSigError::ProposalNotFound),
            Some(p) => if p.executed {
                Err(MultiSigError::AlreadyExecuted)
            } else if p.cancelled {
                Err(MultiSigError::ProposalCancelled)
            } else {
                Ok(())
            },
        }
    }
}

/// What `mark_executed` decides.
pub open spec fn mark_executed_outcome(ms: &MultiSig, id: u64, now: u64) -> Result<(), MultiSigError> {
    match proposal_at(ms, id) {
        None => Err(MultiSigError::ProposalNotFound),
        Some(p) => if p.executed {
            Err(MultiSigError::AlreadyExecuted)
        } else if !executable(ms, id, now) {
            Err(MultiSigError::ThresholdNotMet)
        } else {
            Ok(())
        },
    }
}

/// Whether no address occurs twice in `s`.
pub open spec fn distinct(s: Seq<Address>) -> bool {
    forall|i: int, j: int| 0 <= i < j < s.len() ==> s[i] != s[j]
}

/// Approving keeps every proposal's approvals free of duplicates: a signer
/// is counted at most once towards the threshold.
pub proof fn law_approvals_stay_distinct(ms1: &MultiSig, ms2: &MultiSig, id: u64, signer: Address, now: u64)
    requires
        approve_outcome(ms1, id, signer, now) is Ok,
        forall|k: u64| #[trigger] proposal_at(ms1, k) is Some ==> distinct(proposal_at(ms1, k)->0.approvals),
        ms_proposal_set(
            ms1,
            ms2,
            id,
            ProposalView { approvals: proposal_at(ms1, id)->0.approvals.push(signer), ..proposal_at(ms1, id)->0 },
        ),
    ensures
        forall|k: u64| #[trigger] proposal_at(ms2, k) is Some ==> distinct(proposal_at(ms2, k)->0.approvals),
{
    let p = proposal_at(ms1, id)->0;
    assert(distinct(p.approvals));
    let q = p.approvals.push(signer);
    assert forall|i: int, j: int| 0 <= i < j < q.len() implies q[i] != q[j] by {
        if j == q.len() - 1 {
            assert(q[i] == p.approvals[i]);
        }
    }
    assert forall|k: u64| #[trigger] proposal_at(ms2, k) is Some implies distinct(proposal_at(ms2, k)->0.approvals) by {
        if k != id {
            assert(proposal_at(ms2, k) == proposal_at(ms1, k));
        }
    }
}

/// An executed or cancelled proposal can never execute (again), and nothing
/// executes while paused.
pub proof fn law_no_execution_when_final_or_paused(ms: &MultiSig, id: u64, now: u64)
    requires
        ms.paused || (proposal_at(ms, id) matches Some(p) && (p.executed || p.cancelled)),
    ensures
        !executable(ms, id, now),
        mark_executed_outcome(ms, id, now) is Err,
{
}

/// A successful execution had at least the threshold of approvals, was not
/// expired, and happened while not paused.
pub proof fn law_execution_needs_threshold(ms: &MultiSig, id: u64, now: u64)
    requires
        mark_executed_outcome(ms, id, now) is Ok,
    ensures
        !ms.paused,
        proposal_at(ms, id) matches Some(p) && p.approvals.len() >= ms.config->0.threshold && !expired(p, now)
            && !p.cancelled,
{
}

/// A proposal is executable exactly when the multisig is not paused, its
/// configuration is set with `0 < threshold <= signers`, and the proposal
/// is neither executed nor cancelled, has not reached a non-zero expiry,
/// and has at least `threshold` approvals.  Marking it executed then
/// succeeds.
pub proof fn law_threshold_approvals_make_executable(ms: &MultiSig, id: u64, now: u64)
    requires
        !ms.paused,
        ms.config is Some,
        0 < ms.config->0.threshold <= ms.config->0.signers@.len(),
        proposal_at(ms, id) is Some,
    ensures
        executable(ms, id, now) <==> ({
            let p = proposal_at(ms, id)->0;
            &&& !p.executed
            &&& !p.cancelled
            &&& !(p.expiry != 0 && now >= p.expiry)
            &&& p.approvals.len() >= ms.config->0.threshold
        }),
        executable(ms, id, now) ==> mark_executed_outcome(ms, id, now) == Ok::<(), MultiSigError>(()),
{
}

} // verus!
