//! Token-staked governance: proposals are created against a stake, voted on
//! during a voting window, finalised by quorum and approval threshold (both
//! in basis points), and executed after an execution delay.
use vstd::prelude::*;
use crate::types::{Address, Symbol, Hash32};
use crate::math::trunc_div;

verus! {

/// Lifecycle stages of a governance proposal.
#[derive(Clone, Copy, Debug, PartialEq, Eq, Structural)]
pub enum ProposalStatus {
    /// Initial state; proposals start as `Active`.
    Pending,
    /// Open for voting.
    Active,
    /// Passed; waiting for the execution delay.
    Approved,
    /// Failed quorum or approval threshold.
    Rejected,
    /// Executed.
    Executed,
    /// Expired without being finalised.
    Expired,
}

/// Kinds of vote.
#[derive(Clone, Copy, Debug, PartialEq, Eq, Structural)]
pub enum VoteType {
    For,
    Against,
    /// Counts toward quorum but not toward approval.
    Abstain,
}

/// How voting power is computed.
#[derive(Clone, Copy, Debug, PartialEq, Eq, Structural)]
pub enum VotingScheme {
    /// Every voter has one vote.
    OnePersonOneVote,
    /// Voting power is the voter's governance-token balance.
    TokenWeighted,
}

/// A governance proposal.
#[derive(Clone, Copy, Debug)]
pub struct Proposal {
    pub id: u32,
    pub proposer: Address,
    pub new_wasm_hash: Hash32,
    pub description: Symbol,
    pub created_at: u64,
    pub voting_start: u64,
    pub voting_end: u64,
    pub execution_delay: u64,
    pub status: ProposalStatus,
    pub votes_for: i128,
    pub votes_against: i128,
    pub votes_abstain: i128,
    pub total_votes: u32,
    pub stake_amount: i128,
}

/// Governance parameters.
#[derive(Clone, Copy, Debug, PartialEq, Eq, Structural)]
pub struct GovernanceConfig {
    /// Voting period in seconds.
    pub voting_period: u64,
    /// Delay after the voting end before execution.
    pub execution_delay: u64,
    /// Minimum quorum in basis points.
    pub quorum_percentage: u32,
    /// Minimum approval ratio in basis points.
    pub approval_threshold: u32,
    /// Stake required to create a proposal.
    pub min_proposal_stake: i128,
    pub voting_scheme: VotingScheme,
    /// Token used for staking and weighted voting.
    pub governance_token: Address,
}

/// A recorded vote.
#[derive(Clone, Copy, Debug, PartialEq, Eq, Structural)]
pub struct Vote {
    pub voter: Address,
    pub proposal_id: u32,
    pub vote_type: VoteType,
    pub voting_power: i128,
    pub timestamp: u64,
}

/// Governance errors.
#[derive(Clone, Copy, Debug, PartialEq, Eq, Structural)]
pub enum Error {
    NotInitialized,
    InvalidThreshold,
    ThresholdTooLow,
    InsufficientStake,
    ProposalsNotFound,
    ProposalNotFound,
    ProposalNotActive,
    VotingNotStarted,
    VotingEnded,
    VotingStillActive,
    AlreadyVoted,
    ProposalNotApproved,
    ExecutionDelayNotMet,
    ProposalExpired,
    InsufficientBalance,
}

/// The stable numeric code of each governance error.
pub open spec fn governance_error_code(e: Error) -> u32 {
    match e {
        Error::NotInitialized => 1,
        Error::InvalidThreshold => 2,
        Error::ThresholdTooLow => 3,
        Error::InsufficientStake => 4,
        Error::ProposalsNotFound => 5,
        Error::ProposalNotFound => 6,
        Error::ProposalNotActive => 7,
        Error::VotingNotStarted => 8,
        Error::VotingEnded => 9,
        Error::VotingStillActive => 10,
        Error::AlreadyVoted => 11,
        Error::ProposalNotApproved => 12,
        Error::ExecutionDelayNotMet => 13,
        Error::ProposalExpired => 14,
        Error::InsufficientBalance => 15,
    }
}

impl Error {
    /// The stable numeric code of this error.
    pub fn code(&self) -> (c: u32)
        ensures
            c == governance_error_code(*self),
    {
        match self {
            Error::NotInitialized => 1,
            Error::InvalidThreshold => 2,
            Error::ThresholdTooLow => 3,
            Error::InsufficientStake => 4,
            Error::ProposalsNotFound => 5,
            Error::ProposalNotFound => 6,
            Error::ProposalNotActive => 7,
            Error::VotingNotStarted => 8,
            Error::VotingEnded => 9,
            Error::VotingStillActive => 10,
            Error::AlreadyVoted => 11,
            Error::ProposalNotApproved => 12,
            Error::ExecutionDelayNotMet => 13,
            Error::ProposalExpired => 14,
            Error::InsufficientBalance => 15,
        }
    }
}

/// Everything governance keeps in storage.
#[derive(Debug)]
pub struct GovernanceContract {
    /// Governance parameters, once initialised.
    pub config: Option<GovernanceConfig>,
    /// Stored proposals keyed by id (first match wins); absent until the
    /// first proposal is stored.
    pub proposals: Option<Vec<Proposal>>,
    /// Id handed to the next proposal.
    pub proposal_count: u32,
    /// Recorded votes keyed by `(proposal_id, voter)` (first match wins).
    pub votes: Vec<Vote>,
}

/// Basis points meaning 100 %.
pub const BASIS_POINTS: i128 = 10_000;

/// Lowest approval threshold accepted by `validate_config`.
pub const MIN_APPROVAL_THRESHOLD: u32 = 5_000;

/// Voting power that quorum is measured against, per scheme.
pub open spec fn total_possible_votes(scheme: VotingScheme) -> int {
    match scheme {
        VotingScheme::OnePersonOneVote => 100,
        VotingScheme::TokenWeighted => 1_000_000,
    }
}

// ---------------------------------------------------------------------------
// Keyed lookups
// ---------------------------------------------------------------------------

/// Index of the first proposal with id `id`.
pub open spec fn proposal_index(ps: Seq<Proposal>, id: u32) -> Option<int>
    decreases ps.len(),
{
    if ps.len() == 0 {
        None
    } else {
        match proposal_index(ps.drop_last(), id) {
            Some(i) => Some(i),
            None => if ps.last().id == id {
                Some(ps.len() - 1)
            } else {
                None
            },
        }
    }
}

/// The proposal stored under `id`.
pub open spec fn proposal_of(g: &GovernanceContract, id: u32) -> Option<Proposal> {
    match g.proposals {
        None => None,
        Some(ps) => match proposal_index(ps@, id) {
            Some(i) => Some(ps@[i]),
            None => None,
        },
    }
}

/// Index of the first vote recorded for `(id, voter)`.
pub open spec fn vote_index(vs: Seq<Vote>, id: u32, voter: Address) -> Option<int>
    decreases vs.len(),
{
    if vs.len() == 0 {
        None
    } else {
        match vote_index(vs.drop_last(), id, voter) {
            Some(i) => Some(i),
            None => if vs.last().proposal_id == id && vs.last().voter == voter {
                Some(vs.len() - 1)
            } else {
                None
            },
        }
    }
}

/// The vote recorded for `(id, voter)`.
pub open spec fn vote_of(g: &GovernanceContract, id: u32, voter: Address) -> Option<Vote> {
    match vote_index(g.votes@, id, voter) {
        Some(i) => Some(g.votes@[i]),
        None => None,
    }
}

proof fn lemma_proposal_index_char(ps: Seq<Proposal>, id: u32)
    ensures
        proposal_index(ps, id) matches Some(i) ==> 0 <= i < ps.len() && ps[i].id == id && forall|j: int|
            0 <= j < i ==> (#[trigger] ps[j]).id != id,
        proposal_index(ps, id) is None ==> forall|j: int| 0 <= j < ps.len() ==> (#[trigger] ps[j]).id != id,
    decreases ps.len(),
{
    if ps.len() > 0 {
        let p = ps.drop_last();
        lemma_proposal_index_char(p, id);
        assert forall|j: int| 0 <= j < p.len() implies #[trigger] p[j] == ps[j] by {}
        if proposal_index(p, id) is Some {
            let i = proposal_index(p, id)->0;
            assert(p[i] == ps[i]);
            assert forall|j: int| 0 <= j < i implies (#[trigger] ps[j]).id != id by {
                assert(p[j] == ps[j]);
            }
        } else {
            assert forall|j: int| 0 <= j < ps.len() - 1 implies (#[trigger] ps[j]).id != id by {
                assert(p[j] == ps[j]);
            }
        }
    }
}

proof fn lemma_proposal_index_is(ps: Seq<Proposal>, id: u32, i: int)
    requires
        0 <= i < ps.len(),
        ps[i].id == id,
        forall|j: int| 0 <= j < i ==> (#[trigger] ps[j]).id != id,
    ensures
        proposal_index(ps, id) == Some(i),
{
    lemma_proposal_index_char(ps, id);
    match proposal_index(ps, id) {
        Some(k) => {
            if k < i {
                assert(ps[k].id != id);
            }
            if i < k {
                assert(ps[i].id != id);
            }
        },
        None => {
            assert(ps[i].id != id);
        },
    }
}

/// Replacing or appending the proposal with id `id` keeps every other
/// lookup.
proof fn lemma_proposal_frame(before: Seq<Proposal>, after: Seq<Proposal>, id: u32, other: u32)
    requires
        other != id,
        after.len() == before.len() || after.len() == before.len() + 1,
        forall|j: int| 0 <= j < before.len() ==> (#[trigger] after[j]).id == before[j].id,
        forall|j: int| 0 <= j < before.len() && before[j].id != id ==> #[trigger] after[j] == before[j],
        after.len() == before.len() + 1 ==> after.last().id == id,
    ensures
        proposal_index(after, other) == proposal_index(before, other),
        proposal_index(before, other) matches Some(i) ==> after[i] == before[i],
{
    lemma_proposal_index_char(before, other);
    match proposal_index(before, other) {
        Some(i) => {
            assert forall|j: int| 0 <= j < i implies (#[trigger] after[j]).id != other by {
                assert(before[j].id != other);
            }
            lemma_proposal_index_is(after, other, i);
        },
        None => {
            lemma_proposal_index_char(after, other);
            if proposal_index(after, other) is Some {
                let k = proposal_index(after, other)->0;
                if k < before.len() {
                    assert(before[k].id != other);
                }
            }
        },
    }
}

proof fn lemma_vote_index_char(vs: Seq<Vote>, id: u32, voter: Address)
    ensures
        vote_index(vs, id, voter) matches Some(i) ==> 0 <= i < vs.len() && vs[i].proposal_id == id
            && vs[i].voter == voter,
        vote_index(vs, id, voter) is None ==> forall|j: int|
            0 <= j < vs.len() ==> !((#[trigger] vs[j]).proposal_id == id && vs[j].voter == voter),
    decreases vs.len(),
{
    if vs.len() > 0 {
        let p = vs.drop_last();
        lemma_vote_index_char(p, id, voter);
        if vote_index(p, id, voter) is Some {
            let i = vote_index(p, id, voter)->0;
            assert(p[i] == vs[i]);
        } else {
            assert forall|j: int| 0 <= j < vs.len() - 1 implies !((#[trigger] vs[j]).proposal_id == id
                && vs[j].voter == voter) by {
                assert(p[j] == vs[j]);
            }
        }
    }
}

// ---------------------------------------------------------------------------
// Specification of the entrypoints
// ---------------------------------------------------------------------------

/// What `validate_config` decides.
pub open spec fn config_check(c: GovernanceConfig) -> Result<(), Error> {
    if c.quorum_percentage > 10000 || c.approval_threshold > 10000 {
        Err(Error::InvalidThreshold)
    } else if c.approval_threshold < MIN_APPROVAL_THRESHOLD {
        Err(Error::ThresholdTooLow)
    } else {
        Ok(())
    }
}

/// What `create_proposal` decides, given the proposer's token balance as
/// read from the governance token (`None` when the read failed).
pub open spec fn create_outcome(g: &GovernanceContract, balance: Option<i128>) -> Result<(), Error> {
    match g.config {
        None => Err(Error::NotInitialized),
        Some(c) => if c.min_proposal_stake > 0 {
            match balance {
                None => Err(Error::InsufficientBalance),
                Some(b) => if b < c.min_proposal_stake {
                    Err(Error::InsufficientStake)
                } else {
                    Ok(())
                },
            }
        } else {
            Ok(())
        },
    }
}

/// Voting power of a voter with token balance `balance` (`None` when the read
/// failed) under `scheme`.
pub open spec fn voting_power(scheme: VotingScheme, balance: Option<i128>) -> Option<i128> {
    match scheme {
        VotingScheme::OnePersonOneVote => Some(1),
        VotingScheme::TokenWeighted => balance,
    }
}

/// What `cast_vote` decides.
pub open spec fn vote_outcome(
    g: &GovernanceContract,
    voter: Address,
    id: u32,
    now: u64,
    balance: Option<i128>,
) -> Result<(), Error> {
    match g.proposals {
        None => Err(Error::ProposalsNotFound),
        Some(_) => match proposal_of(g, id) {
            None => Err(Error::ProposalNotFound),
            Some(p) => if p.status != ProposalStatus::Active {
                Err(Error::ProposalNotActive)
            } else if now > p.voting_end {
                Err(Error::VotingEnded)
            } else if vote_of(g, id, voter) is Some {
                Err(Error::AlreadyVoted)
            } else {
                match g.config {
                    None => Err(Error::NotInitialized),
                    Some(c) => if voting_power(c.voting_scheme, balance) is None {
                        Err(Error::InsufficientBalance)
                    } else {
                        Ok(())
                    },
                }
            },
        },
    }
}

/// `p` with `power` added to the tally of `t` and one more vote counted.
pub open spec fn tallied(p: Proposal, t: VoteType, power: int) -> Proposal {
    let q = Proposal { total_votes: (p.total_votes + 1) as u32, ..p };
    match t {
        VoteType::For => Proposal { votes_for: (p.votes_for + power) as i128, ..q },
        VoteType::Against => Proposal { votes_against: (p.votes_against + power) as i128, ..q },
        VoteType::Abstain => Proposal { votes_abstain: (p.votes_abstain + power) as i128, ..q },
    }
}

/// Whether tallying `power` for `t` on `p` stays representable.
pub open spec fn tally_fits(p: Proposal, t: VoteType, power: int) -> bool {
    &&& p.total_votes + 1 <= u32::MAX
    &&& match t {
        VoteType::For => i128::MIN <= p.votes_for + power <= i128::MAX,
        VoteType::Against => i128::MIN <= p.votes_against + power <= i128::MAX,
        VoteType::Abstain => i128::MIN <= p.votes_abstain + power <= i128::MAX,
    }
}

/// The status `finalize_proposal` gives a proposal under `c`.
pub open spec fn final_status(p: Proposal, c: GovernanceConfig) -> ProposalStatus {
    let total_cast = p.votes_for + p.votes_against + p.votes_abstain;
    let quorum_met = trunc_div(total_cast * 10000, total_possible_votes(c.voting_scheme))
        >= c.quorum_percentage;
    let decisive = p.votes_for + p.votes_against;
    if !quorum_met {
        ProposalStatus::Rejected
    } else if decisive == 0 {
        ProposalStatus::Rejected
    } else if trunc_div(p.votes_for * 10000, decisive) >= c.approval_threshold {
        ProposalStatus::Approved
    } else {
        ProposalStatus::Rejected
    }
}

/// Whether finalising `p` stays within `i128` arithmetic.
pub open spec fn finalize_fits(p: Proposal) -> bool {
    let total_cast = p.votes_for + p.votes_against + p.votes_abstain;
    let decisive = p.votes_for + p.votes_against;
    &&& i128::MIN <= decisive <= i128::MAX
    &&& i128::MIN <= total_cast <= i128::MAX
    &&& i128::MIN <= total_cast * 10000 <= i128::MAX
    &&& i128::MIN <= p.votes_for * 10000 <= i128::MAX
    &&& !(p.votes_for * 10000 == i128::MIN && decisive == -1)
}

/// What `finalize_proposal` decides; `token_ok` tells whether the governance
/// token could be reached (only consulted under token-weighted voting).
pub open spec fn finalize_outcome(g: &GovernanceContract, id: u32, now: u64, token_ok: bool) -> Result<
    (),
    Error,
> {
    match g.proposals {
        None => Err(Error::ProposalsNotFound),
        Some(_) => match proposal_of(g, id) {
            None => Err(Error::ProposalNotFound),
            Some(p) => match g.config {
                None => Err(Error::NotInitialized),
                Some(c) => if now <= p.voting_end {
                    Err(Error::VotingStillActive)
                } else if c.voting_scheme == VotingScheme::TokenWeighted && !token_ok {
                    Err(Error::NotInitialized)
                } else {
                    Ok(())
                },
            },
        },
    }
}

/// What `execute_proposal` decides.
pub open spec fn execute_outcome(g: &GovernanceContract, id: u32, now: u64) -> Result<(), Error> {
    match g.proposals {
        None => Err(Error::ProposalsNotFound),
        Some(_) => match proposal_of(g, id) {
            None => Err(Error::ProposalNotFound),
            Some(p) => if p.status != ProposalStatus::Approved {
                Err(Error::ProposalNotApproved)
            } else if now < p.voting_end + p.execution_delay {
                Err(Error::ExecutionDelayNotMet)
            } else {
                Ok(())
            },
        },
    }
}

/// Whether every byte of `h` is zero (a placeholder hash that installs
/// nothing).
pub open spec fn is_zero_hash(h: Hash32) -> bool {
    forall|i: int| 0 <= i < 32 ==> #[trigger] h@[i] == 0
}

/// `g2` is `g1` with the proposal stored under `id` set to `p`: that lookup
/// gives `p`, all other proposal lookups are unchanged.
pub open spec fn proposal_set(g1: &GovernanceContract, g2: &GovernanceContract, id: u32, p: Proposal) -> bool {
    &&& g2.proposals is Some
    &&& proposal_of(g2, id) == Some(p)
    &&& forall|k: u32| k != id ==> #[trigger] proposal_of(g2, k) == proposal_of(g1, k)
}

// ---------------------------------------------------------------------------
// Executable helpers
// ---------------------------------------------------------------------------

fn find_proposal(ps: &Vec<Proposal>, id: u32) -> (r: Option<usize>)
    ensures
        r matches Some(i) ==> proposal_index(ps@, id) == Some(i as int) && i < ps@.len() && ps@[i as int].id
            == id,
        r is None ==> proposal_index(ps@, id) is None,
{
    let mut i: usize = 0;
    while i < ps.len()
        invariant
            0 <= i <= ps.len(),
            forall|j: int| 0 <= j < i ==> (#[trigger] ps@[j]).id != id,
        decreases ps.len() - i,
    {
        if ps[i].id == id {
            proof {
                lemma_proposal_index_is(ps@, id, i as int);
            }
            return Some(i);
        }
        i = i + 1;
    }
    proof {
        lemma_proposal_index_char(ps@, id);
        if proposal_index(ps@, id) is Some {
            let k = proposal_index(ps@, id)->0;
            assert(ps@[k].id != id);
        }
    }
    None
}

fn has_vote(vs: &Vec<Vote>, id: u32, voter: Address) -> (r: bool)
    ensures
        r == vote_index(vs@, id, voter) is Some,
{
    let mut i: usize = 0;
    while i < vs.len()
        invariant
            0 <= i <= vs.len(),
            forall|j: int| 0 <= j < i ==> !((#[trigger] vs@[j]).proposal_id == id && vs@[j].voter == voter),
        decreases vs.len() - i,
    {
        if vs[i].proposal_id == id && vs[i].voter == voter {
            proof {
                lemma_vote_index_char(vs@, id, voter);
                if vote_index(vs@, id, voter) is None {
                    assert(!(vs@[i as int].proposal_id == id && vs@[i as int].voter == voter));
                }
            }
            return true;
        }
        i = i + 1;
    }
    proof {
        lemma_vote_index_char(vs@, id, voter);
        if vote_index(vs@, id, voter) is Some {
            let k = vote_index(vs@, id, voter)->0;
            assert(!(vs@[k].proposal_id == id && vs@[k].voter == voter));
        }
    }
    false
}

impl GovernanceContract {
    /// Empty governance storage.
    pub fn new() -> (g: Self)
        ensures
            g.config is None,
            g.proposals is None,
            g.proposal_count == 0,
            g.votes@.len() == 0,
    {
        GovernanceContract { config: None, proposals: None, proposal_count: 0, votes: Vec::new() }
    }

    /// The proposal stored under `proposal_id`, if any.
    pub fn get_proposal(&self, proposal_id: u32) -> (r: Option<Proposal>)
        ensures
            r == proposal_of(self, proposal_id),
    {
        match &self.proposals {
            None => None,
            Some(ps) => match find_proposal(ps, proposal_id) {
                None => None,
                Some(i) => Some(ps[i]),
            },
        }
    }

    /// Stores `p` under its id (replacing or appending).
    fn put_proposal(&mut self, p: Proposal)
        ensures
            proposal_set(old(self), final(self), p.id, p),
            final(self).config == old(self).config,
            final(self).proposal_count == old(self).proposal_count,
            final(self).votes == old(self).votes,
    {
        let mut ps: Vec<Proposal> = match self.proposals.take() {
            None => Vec::new(),
            Some(v) => v,
        };
        let ghost before = ps@;
        match find_proposal(&ps, p.id) {
            Some(i) => {
                proof {
                    lemma_proposal_index_char(before, p.id);
                }
                ps.set(i, p);
                proof {
                    lemma_proposal_index_is(ps@, p.id, i as int);
                    assert forall|k: u32| k != p.id implies #[trigger] proposal_index(ps@, k)
                        == proposal_index(before, k) && (proposal_index(before, k) matches Some(j)
                        ==> ps@[j] == before[j]) by {
                        lemma_proposal_frame(before, ps@, p.id, k);
                    }
                }
            },
            None => {
                proof {
                    lemma_proposal_index_char(before, p.id);
                }
                ps.push(p);
                proof {
                    assert forall|j: int| 0 <= j < before.len() implies (#[trigger] ps@[j]).id != p.id by {
                        assert(ps@[j] == before[j]);
                    }
                    lemma_proposal_index_is(ps@, p.id, before.len() as int);
                    assert forall|k: u32| k != p.id implies #[trigger] proposal_index(ps@, k)
                        == proposal_index(before, k) && (proposal_index(before, k) matches Some(j)
                        ==> ps@[j] == before[j]) by {
                        lemma_proposal_frame(before, ps@, p.id, k);
                    }
                }
            },
        }
        self.proposals = Some(ps);
        proof {
            assert forall|k: u32| k != p.id implies #[trigger] proposal_of(final(self), k) == proposal_of(
                old(self),
                k,
            ) by {}
        }
    }
}


/// Checks governance parameters: quorum and threshold at most 10 000 basis
/// points, threshold at least 5 000.
pub fn validate_config(config: &GovernanceConfig) -> (r: Result<(), Error>)
    ensures
        r == config_check(*config),
{
    if config.quorum_percentage > 10000 || config.approval_threshold > 10000 {
        return Err(Error::InvalidThreshold);
    }
    if config.approval_threshold < MIN_APPROVAL_THRESHOLD {
        return Err(Error::ThresholdTooLow);
    }
    Ok(())
}

/// Whether every byte of `h` is zero.
pub fn is_zero_hash_exec(h: &Hash32) -> (r: bool)
    ensures
        r == is_zero_hash(*h),
{
    let mut i: usize = 0;
    while i < 32
        invariant
            0 <= i <= 32,
            forall|j: int| 0 <= j < i ==> #[trigger] h@[j] == 0,
        decreases 32 - i,
    {
        if h[i] != 0 {
            return false;
        }
        i = i + 1;
    }
    true
}

impl GovernanceContract {
    /// Sets the governance parameters after validating them and restarts
    /// proposal numbering at 0; stored proposals and votes are kept.  The
    /// caller authorises `admin` beforehand.
    pub fn init_governance_state(&mut self, admin: Address, config: GovernanceConfig) -> (r: Result<
        (),
        Error,
    >)
        ensures
            r == config_check(config),
            r is Err ==> *final(self) == *old(self),
            r is Ok ==> final(self).config == Some(config) && final(self).proposal_count == 0
                && final(self).proposals == old(self).proposals && final(self).votes == old(self).votes,
    {
        validate_config(&config)?;
        self.config = Some(config);
        self.proposal_count = 0;
        Ok(())
    }

    /// Creates a proposal and returns its id.
    ///
    /// `proposer_balance` is the proposer's governance-token balance (`None`
    /// when it could not be read); it is only consulted when a stake is
    /// required.  Refused, with storage unchanged, when governance is not
    /// initialised or the proposer cannot cover the stake.  Otherwise the
    /// proposal takes the next id, opens voting from `now` for the voting
    /// period, and records the stake, which the caller then transfers from
    /// the proposer.
    pub fn create_proposal(
        &mut self,
        proposer: Address,
        new_wasm_hash: Hash32,
        description: Symbol,
        now: u64,
        proposer_balance: Option<i128>,
    ) -> (r: Result<u32, Error>)
        requires
            old(self).config matches Some(c) ==> now + c.voting_period <= u64::MAX,
            old(self).config is Some ==> old(self).proposal_count < u32::MAX,
        ensures
            r is Ok <==> create_outcome(old(self), proposer_balance) is Ok,
            r matches Err(e) ==> create_outcome(old(self), proposer_balance) == Err::<(), Error>(e)
                && *final(self) == *old(self),
            r matches Ok(id) ==> {
                let c = old(self).config->0;
                &&& id == old(self).proposal_count
                &&& final(self).proposal_count == id + 1
                &&& final(self).config == old(self).config
                &&& final(self).votes == old(self).votes
                &&& proposal_set(
                    old(self),
                    final(self),
                    id,
                    Proposal {
                        id,
                        proposer,
                        new_wasm_hash,
                        description,
                        created_at: now,
                        voting_start: now,
                        voting_end: (now + c.voting_period) as u64,
                        execution_delay: c.execution_delay,
                        status: ProposalStatus::Active,
                        votes_for: 0,
                        votes_against: 0,
                        votes_abstain: 0,
                        total_votes: 0,
                        stake_amount: c.min_proposal_stake,
                    },
                )
            },
    {
        let config: GovernanceConfig = match self.config {
            None => {
                return Err(Error::NotInitialized);
            },
            Some(c) => c,
        };
        if config.min_proposal_stake > 0 {
            match proposer_balance {
                None => {
                    return Err(Error::InsufficientBalance);
                },
                Some(b) => {
                    if b < config.min_proposal_stake {
                        return Err(Error::InsufficientStake);
                    }
                },
            }
        }
        let proposal_id: u32 = self.proposal_count;
        let proposal = Proposal {
            id: proposal_id,
            proposer,
            new_wasm_hash,
            description,
            created_at: now,
            voting_start: now,
            voting_end: now + config.voting_period,
            execution_delay: config.execution_delay,
            status: ProposalStatus::Active,
            votes_for: 0,
            votes_against: 0,
            votes_abstain: 0,
            total_votes: 0,
            stake_amount: config.min_proposal_stake,
        };
        self.proposal_count = proposal_id + 1;
        self.put_proposal(proposal);
        Ok(proposal_id)
    }

    /// Casts `voter`'s vote on an active proposal.
    ///
    /// `voter_balance` is the voter's governance-token balance (`None` when
    /// it could not be read); it is the voting power under token-weighted
    /// voting and is ignored otherwise.  Refused, with storage unchanged,
    /// when no proposal exists, the proposal is not active, voting has
    /// ended, the voter already voted on it, governance is not initialised,
    /// or the balance could not be read.  Otherwise the voting power is added
    /// to the tally of `vote_type`, one more vote is counted, and the vote is
    /// recorded.
    pub fn cast_vote(
        &mut self,
        voter: Address,
        proposal_id: u32,
        vote_type: VoteType,
        now: u64,
        voter_balance: Option<i128>,
    ) -> (r: Result<(), Error>)
        requires
            proposal_of(old(self), proposal_id) matches Some(p) && old(self).config matches Some(c)
                && voting_power(c.voting_scheme, voter_balance) matches Some(w) ==> tally_fits(
                p,
                vote_type,
                w as int,
            ),
        ensures
            r == vote_outcome(old(self), voter, proposal_id, now, voter_balance),
            r is Err ==> *final(self) == *old(self),
            r is Ok ==> {
                let p = proposal_of(old(self), proposal_id)->0;
                let w = voting_power(old(self).config->0.voting_scheme, voter_balance)->0;
                &&& proposal_set(old(self), final(self), proposal_id, tallied(p, vote_type, w as int))
                &&& vote_of(final(self), proposal_id, voter) == Some(
                    Vote { voter, proposal_id, vote_type, voting_power: w, timestamp: now },
                )
                &&& final(self).config == old(self).config
                &&& final(self).proposal_count == old(self).proposal_count
            },
    {
        let p: Proposal = match &self.proposals {
            None => {
                return Err(Error::ProposalsNotFound);
            },
            Some(ps) => match find_proposal(ps, proposal_id) {
                None => {
                    return Err(Error::ProposalNotFound);
                },
                Some(i) => ps[i],
            },
        };
        if p.status != ProposalStatus::Active {
            return Err(Error::ProposalNotActive);
        }
        if now > p.voting_end {
            return Err(Error::VotingEnded);
        }
        if has_vote(&self.votes, proposal_id, voter) {
            return Err(Error::AlreadyVoted);
        }
        let config: GovernanceConfig = match self.config {
            None => {
                return Err(Error::NotInitialized);
            },
            Some(c) => c,
        };
        let power: i128 = match config.voting_scheme {
            VotingScheme::OnePersonOneVote => 1,
            VotingScheme::TokenWeighted => match voter_balance {
                None => {
                    return Err(Error::InsufficientBalance);
                },
                Some(b) => b,
            },
        };
        let mut q = p;
        match vote_type {
            VoteType::For => {
                q.votes_for = q.votes_for + power;
            },
            VoteType::Against => {
                q.votes_against = q.votes_against + power;
            },
            VoteType::Abstain => {
                q.votes_abstain = q.votes_abstain + power;
            },
        }
        q.total_votes = q.total_votes + 1;
        assert(q == tallied(p, vote_type, power as int));
        let ghost vs0 = self.votes@;
        proof {
            lemma_vote_index_char(vs0, proposal_id, voter);
        }
        self.votes.push(Vote { voter, proposal_id, vote_type, voting_power: power, timestamp: now });
        proof {
            assert(self.votes@.drop_last() =~= vs0);
        }
        self.put_proposal(q);
        Ok(())
    }

    /// Closes voting on a proposal once its voting window has passed and
    /// returns its new status.
    ///
    /// `token_ok` tells whether the governance token could be reached; it is
    /// only consulted under token-weighted voting.  Refused, with storage
    /// unchanged, when no proposal exists, governance is not initialised,
    /// voting is still open, or the token could not be reached.  Otherwise
    /// the proposal becomes `Approved` when the votes cast reach the quorum
    /// (against 100 possible votes, or 1 000 000 under token weighting) and
    /// the share of `For` among `For` and `Against` reaches the approval
    /// threshold, and `Rejected` otherwise.  The caller then refunds the
    /// stake to the proposer.
    pub fn finalize_proposal(&mut self, proposal_id: u32, now: u64, token_ok: bool) -> (r: Result<
        ProposalStatus,
        Error,
    >)
        requires
            proposal_of(old(self), proposal_id) matches Some(p) ==> finalize_fits(p),
        ensures
            r is Ok <==> finalize_outcome(old(self), proposal_id, now, token_ok) is Ok,
            r matches Err(e) ==> finalize_outcome(old(self), proposal_id, now, token_ok) == Err::<
                (),
                Error,
            >(e) && *final(self) == *old(self),
            r matches Ok(status) ==> {
                let p = proposal_of(old(self), proposal_id)->0;
                &&& status == final_status(p, old(self).config->0)
                &&& proposal_set(old(self), final(self), proposal_id, Proposal { status, ..p })
                &&& final(self).config == old(self).config
                &&& final(self).proposal_count == old(self).proposal_count
                &&& final(self).votes == old(self).votes
            },
    {
        let p: Proposal = match &self.proposals {
            None => {
                return Err(Error::ProposalsNotFound);
            },
            Some(ps) => match find_proposal(ps, proposal_id) {
                None => {
                    return Err(Error::ProposalNotFound);
                },
                Some(i) => ps[i],
            },
        };
        let config: GovernanceConfig = match self.config {
            None => {
                return Err(Error::NotInitialized);
            },
            Some(c) => c,
        };
        if now <= p.voting_end {
            return Err(Error::VotingStillActive);
        }
        let total_possible: i128 = match config.voting_scheme {
            VotingScheme::OnePersonOneVote => 100,
            VotingScheme::TokenWeighted => {
                if !token_ok {
                    return Err(Error::NotInitialized);
                }
                1000000
            },
        };
        let total_cast: i128 = p.votes_for + p.votes_against + p.votes_abstain;
        let quorum_ratio: i128 = match (total_cast * 10000).checked_div(total_possible) {
            Some(q) => q,
            None => 0,
        };
        let quorum_met: bool = quorum_ratio >= config.quorum_percentage as i128;
        let status: ProposalStatus = if !quorum_met {
            ProposalStatus::Rejected
        } else {
            let total_decisive: i128 = p.votes_for + p.votes_against;
            if total_decisive == 0 {
                ProposalStatus::Rejected
            } else {
                let approval_bps: i128 = match (p.votes_for * 10000).checked_div(total_decisive) {
                    Some(q) => q,
                    None => 0,
                };
                if approval_bps >= config.approval_threshold as i128 {
                    ProposalStatus::Approved
                } else {
                    ProposalStatus::Rejected
                }
            }
        };
        let mut q = p;
        q.status = status;
        self.put_proposal(q);
        Ok(status)
    }

    /// Executes an approved proposal once the execution delay after the
    /// voting end has passed.
    ///
    /// Refused, with storage unchanged, when no proposal exists, it is not
    /// approved, or `now` is before `voting_end + execution_delay`.
    /// Otherwise the proposal becomes `Executed`; the result carries the WASM
    /// hash the caller must install, or `None` for an all-zero placeholder
    /// hash.
    pub fn execute_proposal(&mut self, proposal_id: u32, now: u64) -> (r: Result<Option<Hash32>, Error>)
        requires
            proposal_of(old(self), proposal_id) matches Some(p) ==> p.voting_end + p.execution_delay
                <= u64::MAX,
        ensures
            r is Ok <==> execute_outcome(old(self), proposal_id, now) is Ok,
            r matches Err(e) ==> execute_outcome(old(self), proposal_id, now) == Err::<(), Error>(e)
                && *final(self) == *old(self),
            r matches Ok(install) ==> {
                let p = proposal_of(old(self), proposal_id)->0;
                &&& install == (if is_zero_hash(p.new_wasm_hash) {
                    None::<Hash32>
                } else {
                    Some(p.new_wasm_hash)
                })
                &&& proposal_set(
                    old(self),
                    final(self),
                    proposal_id,
                    Proposal { status: ProposalStatus::Executed, ..p },
                )
                &&& final(self).config == old(self).config
                &&& final(self).proposal_count == old(self).proposal_count
                &&& final(self).votes == old(self).votes
            },
    {
        let p: Proposal = match &self.proposals {
            None => {
                return Err(Error::ProposalsNotFound);
            },
            Some(ps) => match find_proposal(ps, proposal_id) {
                None => {
                    return Err(Error::ProposalNotFound);
                },
                Some(i) => ps[i],
            },
        };
        if p.status != ProposalStatus::Approved {
            return Err(Error::ProposalNotApproved);
        }
        if now < p.voting_end + p.execution_delay {
            return Err(Error::ExecutionDelayNotMet);
        }
        let install: Option<Hash32> = if is_zero_hash_exec(&p.new_wasm_hash) {
            None
        } else {
            Some(p.new_wasm_hash)
        };
        let mut q = p;
        q.status = ProposalStatus::Executed;
        self.put_proposal(q);
        Ok(install)
    }

    /// The governance parameters; refused when not initialised.
    pub fn get_config(&self) -> (r: Result<GovernanceConfig, Error>)
        ensures
            r == match self.config {
                Some(c) => Ok(c),
                None => Err(Error::NotInitialized),
            },
    {
        match self.config {
            Some(c) => Ok(c),
            None => Err(Error::NotInitialized),
        }
    }
}


// ---------------------------------------------------------------------------
// Laws
// ---------------------------------------------------------------------------

/// A voter whose vote on a proposal is recorded can never vote on it again.
pub proof fn law_no_double_voting(
    g: &GovernanceContract,
    voter: Address,
    id: u32,
    now: u64,
    balance: Option<i128>,
)
    requires
        vote_of(g, id, voter) is Some,
    ensures
        vote_outcome(g, voter, id, now, balance) is Err,
{
}

/// After a successful vote, the same voter's next attempt on the same
/// proposal is refused as a double vote while voting is open, and as too late
/// afterwards.
pub proof fn law_second_vote_refused(
    g1: &GovernanceContract,
    g2: &GovernanceContract,
    voter: Address,
    id: u32,
    t: VoteType,
    now: u64,
    balance: Option<i128>,
    later: u64,
    balance2: Option<i128>,
)
    requires
        vote_outcome(g1, voter, id, now, balance) is Ok,
        vote_of(g2, id, voter) is Some,
        proposal_set(g1, g2, id, tallied(proposal_of(g1, id)->0, t, voting_power(g1.config->0.voting_scheme, balance)->0 as int)),
        g2.config == g1.config,
    ensures
        later <= proposal_of(g1, id)->0.voting_end ==> vote_outcome(g2, voter, id, later, balance2)
            == Err::<(), Error>(Error::AlreadyVoted),
        later > proposal_of(g1, id)->0.voting_end ==> vote_outcome(g2, voter, id, later, balance2)
            == Err::<(), Error>(Error::VotingEnded),
{
}

/// Only an approved proposal whose execution delay has passed executes.
pub proof fn law_execution_requires_approval_and_delay(g: &GovernanceContract, id: u32, now: u64)
    requires
        execute_outcome(g, id, now) is Ok,
    ensures
        proposal_of(g, id) matches Some(p) && p.status == ProposalStatus::Approved && now
            >= p.voting_end + p.execution_delay,
{
}

/// An executed proposal can never be executed again.
pub proof fn law_executed_is_final(g1: &GovernanceContract, g2: &GovernanceContract, id: u32, p: Proposal, now: u64)
    requires
        proposal_set(g1, g2, id, Proposal { status: ProposalStatus::Executed, ..p }),
    ensures
        execute_outcome(g2, id, now) == Err::<(), Error>(Error::ProposalNotApproved),
{
}

/// A proposal is approved only if the votes cast reach the quorum, some vote
/// is decisive, and the approval ratio reaches the threshold.
pub proof fn law_approval_needs_quorum_and_threshold(p: Proposal, c: GovernanceConfig)
    requires
        final_status(p, c) == ProposalStatus::Approved,
    ensures
        trunc_div(
            (p.votes_for + p.votes_against + p.votes_abstain) * 10000,
            total_possible_votes(c.voting_scheme),
        ) >= c.quorum_percentage,
        p.votes_for + p.votes_against != 0,
        trunc_div(p.votes_for * 10000, p.votes_for + p.votes_against) >= c.approval_threshold,
{
}

/// Accepted parameters keep quorum and threshold within 100 % and the
/// threshold at 50 % or more.
pub proof fn law_accepted_config_bounds(c: GovernanceConfig)
    requires
        config_check(c) is Ok,
    ensures
        c.quorum_percentage <= 10000,
        MIN_APPROVAL_THRESHOLD <= c.approval_threshold <= 10000,
{
}

/// A proposal is finalised as approved exactly when the votes cast, for,
/// against and abstaining together, reach the quorum out of the possible
/// votes (100 under one person one vote, 1 000 000 under token weighting),
/// some For or Against vote was cast, and For makes up at least the
/// threshold of For and Against (both ratios in basis points, rounded
/// toward zero); otherwise it is rejected.
pub proof fn law_finalize_decides_by_quorum_and_threshold(p: Proposal, c: GovernanceConfig)
    ensures
        final_status(p, c) == ProposalStatus::Approved <==> {
            &&& trunc_div(
                (p.votes_for + p.votes_against + p.votes_abstain) * 10000,
                if c.voting_scheme == VotingScheme::OnePersonOneVote {
                    100int
                } else {
                    1_000_000int
                },
            ) >= c.quorum_percentage
            &&& p.votes_for + p.votes_against != 0
            &&& trunc_div(p.votes_for * 10000, p.votes_for + p.votes_against) >= c.approval_threshold
        },
        final_status(p, c) == ProposalStatus::Approved || final_status(p, c) == ProposalStatus::Rejected,
{
}

/// A successful vote of type `t` with voting power `w` adds `w` to that
/// type's tally alone, counts one more vote, and changes nothing else in
/// the proposal.
pub proof fn law_vote_raises_only_its_tally(
    g1: &GovernanceContract,
    g2: &GovernanceContract,
    id: u32,
    t: VoteType,
    w: i128,
)
    requires
        proposal_of(g1, id) is Some,
        tally_fits(proposal_of(g1, id)->0, t, w as int),
        proposal_set(g1, g2, id, tallied(proposal_of(g1, id)->0, t, w as int)),
    ensures
        ({
            let p = proposal_of(g1, id)->0;
            let q = proposal_of(g2, id)->0;
            &&& q.votes_for == p.votes_for + (if t == VoteType::For {
                w as int
            } else {
                0
            })
            &&& q.votes_against == p.votes_against + (if t == VoteType::Against {
                w as int
            } else {
                0
            })
            &&& q.votes_abstain == p.votes_abstain + (if t == VoteType::Abstain {
                w as int
            } else {
                0
            })
            &&& q.total_votes == p.total_votes + 1
            &&& q.status == p.status
            &&& q.proposer == p.proposer
            &&& q.voting_end == p.voting_end
            &&& q.stake_amount == p.stake_amount
        }),
{
}

/// Under one person one vote every voter's power is 1; under token
/// weighting it is the voter's token balance.
pub proof fn law_voting_power(balance: Option<i128>)
    ensures
        voting_power(VotingScheme::OnePersonOneVote, balance) == Some(1i128),
        voting_power(VotingScheme::TokenWeighted, balance) == balance,
{
}

} // verus!
