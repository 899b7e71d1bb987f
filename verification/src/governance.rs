use crate::address::{contains_address, Address};
use crate::distribution::EnergyDistribution;
use crate::membership::{lemma_percent_bounded, lemma_percent_of_entry, percent_of, Member};
use crate::tally::{
    decide, decided_status, has_voted, lemma_no_votes_beyond, lemma_tallies_after_push,
    lemma_tally_bound, quorum_reached, voters_on, weight_cast,
};
use vstd::prelude::*;

verus! {

/// What a proposal asks the community to do.
#[derive(Debug, PartialEq, Eq)]
pub enum ProposalType {
    SpendFunds { amount: i128, recipient: Address, description: String },
    ChangeOwnership { member: Address, new_percent: u32 },
    AddMember { new_member: Address, ownership_percent: u32 },
    RemoveMember { member: Address },
    UpdateParameter { param_name: String, new_value: i128 },
    CreateDEXOffer { amount: i128, price: i128 },
}

impl Clone for ProposalType {
    fn clone(&self) -> (copy: Self)
        ensures
            copy == *self,
    {
        match self {
            ProposalType::SpendFunds { amount, recipient, description } => ProposalType::SpendFunds {
                amount: *amount,
                recipient: *recipient,
                description: description.clone(),
            },
            ProposalType::ChangeOwnership { member, new_percent } => ProposalType::ChangeOwnership {
                member: *member,
                new_percent: *new_percent,
            },
            ProposalType::AddMember { new_member, ownership_percent } => ProposalType::AddMember {
                new_member: *new_member,
                ownership_percent: *ownership_percent,
            },
            ProposalType::RemoveMember { member } => ProposalType::RemoveMember { member: *member },
            ProposalType::UpdateParameter { param_name, new_value } => ProposalType::UpdateParameter {
                param_name: param_name.clone(),
                new_value: *new_value,
            },
            ProposalType::CreateDEXOffer { amount, price } => ProposalType::CreateDEXOffer {
                amount: *amount,
                price: *price,
            },
        }
    }
}

/// Where a proposal stands. `Active` is where it starts; from there it is finalized to
/// `Passed` or `Rejected`, or cancelled; only a passed proposal becomes `Executed`.
#[derive(Clone, Copy, Debug, PartialEq, Eq, Structural)]
pub enum ProposalStatus {
    Active,
    Passed,
    Rejected,
    Executed,
    Cancelled,
}

/// A proposal with its running tallies.
#[derive(Debug, PartialEq, Eq)]
pub struct Proposal {
    pub proposal_id: u64,
    pub proposer: Address,
    pub proposal_type: ProposalType,
    pub description: String,
    pub votes_for: u32,
    pub votes_against: u32,
    pub total_voters: u32,
    pub status: ProposalStatus,
    pub created_at: u64,
    pub voting_ends_at: u64,
}

impl Clone for Proposal {
    fn clone(&self) -> (copy: Self)
        ensures
            copy == *self,
    {
        Proposal {
            proposal_id: self.proposal_id,
            proposer: self.proposer,
            proposal_type: self.proposal_type.clone(),
            description: self.description.clone(),
            votes_for: self.votes_for,
            votes_against: self.votes_against,
            total_voters: self.total_voters,
            status: self.status,
            created_at: self.created_at,
            voting_ends_at: self.voting_ends_at,
        }
    }
}

/// One member's vote on one proposal, with the weight it had when it was cast.
#[derive(Clone, Copy, Debug, PartialEq, Eq, Structural)]
pub struct Vote {
    pub voter: Address,
    pub proposal_id: u64,
    pub in_favor: bool,
    pub weight: u32,
    pub timestamp: u64,
}

/// A trade on the exchange, as the indexer reported it.
#[derive(Clone, Copy, Debug, PartialEq, Eq, Structural)]
pub struct DEXTrade {
    pub trade_id: u64,
    pub seller: Address,
    pub buyer: Address,
    pub amount: i128,
    pub price: i128,
    pub timestamp: u64,
    pub offer_id: i64,
}

/// A sell offer that a member has open on the exchange.
#[derive(Clone, Copy, Debug, PartialEq, Eq, Structural)]
pub struct DEXOffer {
    pub seller: Address,
    pub offer_id: i64,
}

/// Why the governance engine refused a call, or how a finalization ended.
#[derive(Clone, Copy, Debug, PartialEq, Eq, Structural)]
pub enum GovernanceError {
    NotInitialized,
    AlreadyInitialized,
    /// The caller did not authorize the call, or is no member.
    Unauthorized,
    ProposalNotFound,
    VotingEnded,
    VotingNotEnded,
    AlreadyVoted,
    ProposalNotActive,
    /// Reported by a finalization that has rejected the proposal for want of votes.
    QuorumNotReached,
    NotPassed,
    AlreadyExecuted,
    InvalidAmount,
    InsufficientBalance,
    /// The membership ledger has no members yet.
    MembersNotInitialized,
}

/// What is fixed when the engine is initialized.
#[derive(Clone, Copy, Debug, PartialEq, Eq, Structural)]
pub struct GovernanceConfig {
    pub admin: Address,
    pub distribution_contract: Address,
    pub token_contract: Address,
    pub community_wallet: Address,
    /// The length of the voting window, in seconds.
    pub voting_period: u32,
    /// The least total weight of votes with which a proposal is decided by its votes.
    pub quorum_percent: u32,
    /// The least percentage of the cast weight that has to be in favor.
    pub pass_threshold: u32,
}

/// What the caller has to carry out when a proposal is executed.
#[derive(Clone, Copy, Debug, PartialEq, Eq, Structural)]
pub enum ExecutionEffect {
    /// Have the token contract transfer `amount` from the community wallet to `to`.
    Transfer { token_contract: Address, from: Address, to: Address, amount: i128 },
    /// Announce that the community wallet offers `amount` at `price`.
    AnnounceOffer { wallet: Address, amount: i128, price: i128 },
    /// Nothing to do.
    Nothing,
}

/// The proposals, the votes on them and the trades.
#[derive(Debug)]
pub struct CommunityGovernance {
    pub config: Option<GovernanceConfig>,
    pub proposals: Vec<Proposal>,
    pub votes: Vec<Vote>,
    pub trades: Vec<DEXTrade>,
    pub offers: Vec<DEXOffer>,
}

/// Seconds in a day.
pub const SECONDS_PER_DAY: u32 = 86_400;

/// The most votes that one proposal takes: with a weight of at most 100 each, the tallies
/// of that many votes fit their type.
pub const MAX_VOTES: usize = 42_949_672;

/// The proposals among `proposals` that are still active, in their order.
pub open spec fn active_among(proposals: Seq<Proposal>) -> Seq<Proposal>
    decreases proposals.len(),
{
    if proposals.len() == 0 {
        Seq::empty()
    } else if proposals.last().status == ProposalStatus::Active {
        active_among(proposals.drop_last()).push(proposals.last())
    } else {
        active_among(proposals.drop_last())
    }
}

/// The offers that `seller` has among `offers`, in their order.
pub open spec fn offers_of(offers: Seq<DEXOffer>, seller: Address) -> Seq<i64>
    decreases offers.len(),
{
    if offers.len() == 0 {
        Seq::empty()
    } else if offers.last().seller == seller {
        offers_of(offers.drop_last(), seller).push(offers.last().offer_id)
    } else {
        offers_of(offers.drop_last(), seller)
    }
}

impl CommunityGovernance {
    /// Whether there is a proposal with number `id`.
    pub open spec fn has_proposal(&self, id: u64) -> bool {
        1 <= id <= self.proposals@.len()
    }

    /// The proposal with number `id`.
    pub open spec fn proposal(&self, id: u64) -> Proposal
        recommends
            self.has_proposal(id),
    {
        self.proposals@[id - 1]
    }

    /// The number of the proposal that was created last, 0 before the first.
    pub open spec fn last_proposal_id(&self) -> nat {
        self.proposals@.len()
    }

    /// An engine without configuration, proposals, votes or trades.
    pub fn new() -> (engine: Self)
        ensures
            engine.wf(),
            engine.config is None,
            engine.proposals@.len() == 0,
            engine.votes@.len() == 0,
            engine.trades@.len() == 0,
            engine.offers@.len() == 0,
    {
        CommunityGovernance {
            config: None,
            proposals: Vec::new(),
            votes: Vec::new(),
            trades: Vec::new(),
            offers: Vec::new(),
        }
    }

    /// Sets the configuration, once. The voting window is given in days and kept in
    /// seconds; where it is set, it has to fit its type in seconds.
    pub fn initialize(
        &mut self,
        admin: Address,
        distribution_contract: Address,
        token_contract: Address,
        community_wallet: Address,
        voting_period_days: u32,
        quorum_percent: u32,
        pass_threshold: u32,
    ) -> (result: Result<(), GovernanceError>)
        requires
            old(self).wf(),
            old(self).config is None ==> voting_period_days * SECONDS_PER_DAY <= u32::MAX,
        ensures
            final(self).wf(),
            old(self).config is Some ==> result == Err::<(), _>(GovernanceError::AlreadyInitialized)
                && *final(self) == *old(self),
            old(self).config is None ==> result is Ok && final(self).config == Some(
                GovernanceConfig {
                    admin,
                    distribution_contract,
                    token_contract,
                    community_wallet,
                    voting_period: (voting_period_days * SECONDS_PER_DAY) as u32,
                    quorum_percent,
                    pass_threshold,
                },
            ) && final(self).proposals == old(self).proposals && final(self).votes == old(
                self,
            ).votes && final(self).trades == old(self).trades && final(self).offers == old(
                self,
            ).offers,
    {
        if self.config.is_some() {
            return Err(GovernanceError::AlreadyInitialized);
        }
        self.config = Some(
            GovernanceConfig {
                admin,
                distribution_contract,
                token_contract,
                community_wallet,
                voting_period: voting_period_days * SECONDS_PER_DAY,
                quorum_percent,
                pass_threshold,
            },
        );
        Ok(())
    }

    /// Why a proposal is not created, if it is not. The conditions are tried in this
    /// order: the proposer's authorization, the configuration, the ledger's membership,
    /// the proposer's membership.
    pub open spec fn creation_refusal(
        &self,
        ledger: &EnergyDistribution,
        signers: Seq<Address>,
        proposer: Address,
    ) -> Option<GovernanceError> {
        if !signers.contains(proposer) {
            Some(GovernanceError::Unauthorized)
        } else if self.config is None {
            Some(GovernanceError::NotInitialized)
        } else if !ledger.members_initialized {
            Some(GovernanceError::MembersNotInitialized)
        } else if percent_of(ledger.members@, proposer) is None {
            Some(GovernanceError::Unauthorized)
        } else {
            None
        }
    }

    /// `post` is `self` with one more proposal: the one that `proposer` made at `now`,
    /// active, without votes, open for the configured voting period.
    pub open spec fn proposal_created(
        &self,
        post: &Self,
        now: u64,
        proposer: Address,
        proposal_type: ProposalType,
        description: String,
    ) -> bool {
        &&& self.config is Some
        &&& post.config == self.config
        &&& post.votes == self.votes
        &&& post.trades == self.trades
        &&& post.offers == self.offers
        &&& post.proposals@ == self.proposals@.push(
            Proposal {
                proposal_id: (self.proposals@.len() + 1) as u64,
                proposer,
                proposal_type,
                description,
                votes_for: 0,
                votes_against: 0,
                total_voters: 0,
                status: ProposalStatus::Active,
                created_at: now,
                voting_ends_at: (now + self.config->Some_0.voting_period) as u64,
            },
        )
    }

    /// Creates a proposal and returns its number, which is one more than that of the
    /// proposal before it. `signers` are the principals that authorized this call, `now`
    /// is the time of the call; the proposer has to be a signer and a member of `ledger`.
    /// A refused call changes nothing, so it uses up no number. Where the proposal is not
    /// refused, its number and the end of its voting window have to fit their type.
    pub fn create_proposal(
        &mut self,
        ledger: &EnergyDistribution,
        signers: &Vec<Address>,
        now: u64,
        proposer: Address,
        proposal_type: ProposalType,
        description: String,
    ) -> (result: Result<u64, GovernanceError>)
        requires
            old(self).wf(),
            ledger.wf(),
            old(self).creation_refusal(ledger, signers@, proposer) is None ==> {
                &&& old(self).proposals@.len() < u64::MAX
                &&& now + old(self).config->Some_0.voting_period <= u64::MAX
            },
        ensures
            final(self).wf(),
            match result {
                Ok(id) => {
                    &&& old(self).creation_refusal(ledger, signers@, proposer) is None
                    &&& !old(self).has_proposal(id)
                    &&& id == old(self).last_proposal_id() + 1
                    &&& id == final(self).last_proposal_id()
                    &&& old(self).proposal_created(
                        final(self),
                        now,
                        proposer,
                        proposal_type,
                        description,
                    )
                },
                Err(e) => {
                    &&& old(self).creation_refusal(ledger, signers@, proposer) == Some(e)
                    &&& *final(self) == *old(self)
                },
            },
    {
        if !contains_address(signers, proposer) {
            return Err(GovernanceError::Unauthorized);
        }
        let voting_period: u32 = match self.config {
            None => {
                return Err(GovernanceError::NotInitialized);
            },
            Some(config) => config.voting_period,
        };
        if !ledger.are_members_initialized() {
            return Err(GovernanceError::MembersNotInitialized);
        }
        if !ledger.is_member(proposer) {
            return Err(GovernanceError::Unauthorized);
        }
        let proposal_id: u64 = (self.proposals.len() as u64) + 1;
        let proposal = Proposal {
            proposal_id,
            proposer,
            proposal_type,
            description,
            votes_for: 0,
            votes_against: 0,
            total_voters: 0,
            status: ProposalStatus::Active,
            created_at: now,
            voting_ends_at: now + (voting_period as u64),
        };
        proof {
            lemma_no_votes_beyond(self.votes@, self.proposals@.len() as int, proposal_id);
        }
        self.proposals.push(proposal);
        Ok(proposal_id)
    }

    /// The proposal with number `proposal_id`.
    pub fn get_proposal(&self, proposal_id: u64) -> (result: Result<Proposal, GovernanceError>)
        ensures
            match result {
                Ok(proposal) => self.has_proposal(proposal_id) && proposal == self.proposal(
                    proposal_id,
                ),
                Err(e) => !self.has_proposal(proposal_id) && e == GovernanceError::ProposalNotFound,
            },
    {
        if proposal_id >= 1 && proposal_id - 1 < self.proposals.len() as u64 {
            Ok(self.proposals[(proposal_id - 1) as usize].clone())
        } else {
            Err(GovernanceError::ProposalNotFound)
        }
    }

    /// The vote of `voter` on proposal `proposal_id`, if one is on record.
    pub fn get_vote(&self, proposal_id: u64, voter: Address) -> (vote: Option<Vote>)
        ensures
            vote is Some == has_voted(self.votes@, proposal_id, voter),
            vote is Some ==> self.votes@.contains(vote->Some_0) && vote->Some_0.proposal_id
                == proposal_id && vote->Some_0.voter == voter,
    {
        let mut k: usize = 0;
        while k < self.votes.len()
            invariant
                k <= self.votes@.len(),
                forall|j: int|
                    0 <= j < k ==> !((#[trigger] self.votes@[j]).proposal_id == proposal_id
                        && self.votes@[j].voter == voter),
            decreases self.votes.len() - k,
        {
            let vote = self.votes[k];
            if vote.proposal_id == proposal_id && vote.voter == voter {
                return Some(vote);
            }
            k += 1;
        }
        None
    }

    /// Why a vote is refused, if it is. The conditions are tried in this order: the voter's
    /// authorization, the configuration, the ledger's membership, the voter's
    /// membership, the proposal, its status, its voting window, an earlier vote.
    pub open spec fn vote_refusal(
        &self,
        ledger: &EnergyDistribution,
        signers: Seq<Address>,
        now: u64,
        voter: Address,
        proposal_id: u64,
    ) -> Option<GovernanceError> {
        if !signers.contains(voter) {
            Some(GovernanceError::Unauthorized)
        } else if self.config is None {
            Some(GovernanceError::NotInitialized)
        } else if !ledger.members_initialized {
            Some(GovernanceError::MembersNotInitialized)
        } else if percent_of(ledger.members@, voter) is None {
            Some(GovernanceError::Unauthorized)
        } else if !self.has_proposal(proposal_id) {
            Some(GovernanceError::ProposalNotFound)
        } else if self.proposal(proposal_id).status != ProposalStatus::Active {
            Some(GovernanceError::ProposalNotActive)
        } else if now > self.proposal(proposal_id).voting_ends_at {
            Some(GovernanceError::VotingEnded)
        } else if has_voted(self.votes@, proposal_id, voter) {
            Some(GovernanceError::AlreadyVoted)
        } else {
            None
        }
    }

    /// `post` is `self` with `vote` on record and counted: its weight is added to its
    /// side of its proposal's tally, and the proposal has one more voter.
    pub open spec fn vote_recorded(&self, post: &Self, vote: Vote) -> bool {
        let before = self.proposal(vote.proposal_id);
        &&& self.has_proposal(vote.proposal_id)
        &&& post.config == self.config
        &&& post.trades == self.trades
        &&& post.offers == self.offers
        &&& post.votes@ == self.votes@.push(vote)
        &&& post.proposals@ == self.proposals@.update(
            vote.proposal_id - 1,
            Proposal {
                votes_for: if vote.in_favor {
                    (before.votes_for + vote.weight) as u32
                } else {
                    before.votes_for
                },
                votes_against: if vote.in_favor {
                    before.votes_against
                } else {
                    (before.votes_against + vote.weight) as u32
                },
                total_voters: (before.total_voters + 1) as u32,
                ..before
            },
        )
    }

    /// Casts the vote of `voter` on an active proposal whose voting window is open. The
    /// vote weighs what `voter` holds in `ledger` at this moment; a later change of the
    /// membership does not touch it. `signers` are the principals that authorized this
    /// call, `now` is the time of the call. A refused call changes nothing; and a voter
    /// whose vote on the proposal is on record is always refused. Where the vote is not
    /// refused, the proposal has to have room for it: fewer than `MAX_VOTES` voters.
    pub fn vote(
        &mut self,
        ledger: &EnergyDistribution,
        signers: &Vec<Address>,
        now: u64,
        voter: Address,
        proposal_id: u64,
        in_favor: bool,
    ) -> (result: Result<(), GovernanceError>)
        requires
            old(self).wf(),
            ledger.wf(),
            old(self).vote_refusal(ledger, signers@, now, voter, proposal_id) is None ==> old(
                self,
            ).proposal(proposal_id).total_voters < MAX_VOTES,
        ensures
            final(self).wf(),
            has_voted(old(self).votes@, proposal_id, voter) ==> result is Err && *final(self)
                == *old(self),
            has_voted(old(self).votes@, proposal_id, voter) && signers@.contains(voter)
                && ledger.members_initialized && percent_of(ledger.members@, voter) is Some
                && old(self).proposal(proposal_id).status == ProposalStatus::Active && now <= old(
                self,
            ).proposal(proposal_id).voting_ends_at ==> result == Err::<(), _>(
                GovernanceError::AlreadyVoted,
            ),
            match result {
                Ok(()) => {
                    &&& old(self).vote_refusal(ledger, signers@, now, voter, proposal_id) is None
                    &&& old(self).vote_recorded(
                        final(self),
                        Vote {
                            voter,
                            proposal_id,
                            in_favor,
                            weight: percent_of(ledger.members@, voter)->Some_0,
                            timestamp: now,
                        },
                    )
                    &&& has_voted(final(self).votes@, proposal_id, voter)
                    &&& final(self).proposal(proposal_id).total_voters == old(self).proposal(
                        proposal_id,
                    ).total_voters + 1
                    &&& final(self).proposal(proposal_id).total_voters == voters_on(
                        final(self).votes@,
                        proposal_id,
                    )
                },
                Err(e) => {
                    &&& old(self).vote_refusal(ledger, signers@, now, voter, proposal_id) == Some(e)
                    &&& *final(self) == *old(self)
                },
            },
    {
        if !contains_address(signers, voter) {
            return Err(GovernanceError::Unauthorized);
        }
        if self.config.is_none() {
            return Err(GovernanceError::NotInitialized);
        }
        if !ledger.are_members_initialized() {
            return Err(GovernanceError::MembersNotInitialized);
        }
        let weight: u32 = match ledger.get_member_percent(voter) {
            None => {
                return Err(GovernanceError::Unauthorized);
            },
            Some(percent) => percent,
        };
        if proposal_id < 1 || proposal_id - 1 >= self.proposals.len() as u64 {
            return Err(GovernanceError::ProposalNotFound);
        }
        let index: usize = (proposal_id - 1) as usize;
        if self.proposals[index].status != ProposalStatus::Active {
            return Err(GovernanceError::ProposalNotActive);
        }
        if now > self.proposals[index].voting_ends_at {
            return Err(GovernanceError::VotingEnded);
        }
        if self.get_vote(proposal_id, voter).is_some() {
            return Err(GovernanceError::AlreadyVoted);
        }
        let vote = Vote { voter, proposal_id, in_favor, weight, timestamp: now };
        proof {
            lemma_percent_of_entry(ledger.members@, voter);
            let entry = choose|i: int|
                0 <= i < ledger.members@.len() && #[trigger] ledger.members@[i] == (
                Member { address: voter, percent: weight });
            lemma_percent_bounded(ledger.members@, entry);
            lemma_tally_bound(self.votes@, proposal_id);
        }
        if in_favor {
            self.proposals[index].votes_for += weight;
        } else {
            self.proposals[index].votes_against += weight;
        }
        self.proposals[index].total_voters += 1;
        self.votes.push(vote);
        proof {
            let before = old(self).proposal(proposal_id);
            assert(self.proposals@ =~= old(self).proposals@.update(
                proposal_id - 1,
                Proposal {
                    votes_for: if in_favor {
                        (before.votes_for + weight) as u32
                    } else {
                        before.votes_for
                    },
                    votes_against: if in_favor {
                        before.votes_against
                    } else {
                        (before.votes_against + weight) as u32
                    },
                    total_voters: (before.total_voters + 1) as u32,
                    ..before
                },
            ));
            assert forall|i: int| 0 <= i < self.proposals@.len() implies {
                &&& (#[trigger] self.proposals@[i]).total_voters == voters_on(
                    self.votes@,
                    (i + 1) as u64,
                )
                &&& self.proposals@[i].votes_for == weight_cast(self.votes@, (i + 1) as u64, true)
                &&& self.proposals@[i].votes_against == weight_cast(
                    self.votes@,
                    (i + 1) as u64,
                    false,
                )
            } by {
                lemma_tallies_after_push(old(self).votes@, vote, (i + 1) as u64);
                assert(old(self).proposals@[i].total_voters == voters_on(
                    old(self).votes@,
                    (i + 1) as u64,
                ));
            }
        }
        Ok(())
    }

    /// Why a finalization is refused, if it is. The conditions are tried in this order: the
    /// proposal, its status, its voting window.
    pub open spec fn finalize_refusal(&self, now: u64, proposal_id: u64) -> Option<GovernanceError> {
        if !self.has_proposal(proposal_id) {
            Some(GovernanceError::ProposalNotFound)
        } else if self.proposal(proposal_id).status != ProposalStatus::Active {
            Some(GovernanceError::ProposalNotActive)
        } else if now <= self.proposal(proposal_id).voting_ends_at {
            Some(GovernanceError::VotingNotEnded)
        } else {
            None
        }
    }

    /// `post` is `self` with proposal `proposal_id` decided by its tallies.
    pub open spec fn finalized(&self, post: &Self, proposal_id: u64) -> bool {
        let before = self.proposal(proposal_id);
        &&& self.has_proposal(proposal_id)
        &&& self.config is Some
        &&& post.config == self.config
        &&& post.votes == self.votes
        &&& post.trades == self.trades
        &&& post.offers == self.offers
        &&& post.proposals@ == self.proposals@.update(
            proposal_id - 1,
            Proposal {
                status: decided_status(
                    before.votes_for,
                    before.votes_against,
                    self.config->Some_0.quorum_percent,
                    self.config->Some_0.pass_threshold,
                ),
                ..before
            },
        )
    }

    /// Decides an active proposal whose voting window has closed: it passes if the cast
    /// weight reaches the quorum and the approval rate reaches the pass threshold, and is
    /// rejected otherwise; a proposal on which no weight was cast is rejected. A
    /// rejection for want of quorum is reported as `QuorumNotReached`, and the rejection
    /// stands. Before the window has closed, and on a proposal that is not active, nothing
    /// changes.
    pub fn finalize_proposal(&mut self, now: u64, proposal_id: u64) -> (result: Result<
        (),
        GovernanceError,
    >)
        requires
            old(self).wf(),
        ensures
            final(self).wf(),
            match old(self).finalize_refusal(now, proposal_id) {
                Some(e) => result == Err::<(), _>(e) && *final(self) == *old(self),
                None => {
                    let before = old(self).proposal(proposal_id);
                    &&& old(self).finalized(final(self), proposal_id)
                    &&& result == if quorum_reached(
                        before.votes_for,
                        before.votes_against,
                        old(self).config->Some_0.quorum_percent,
                    ) {
                        Ok::<(), GovernanceError>(())
                    } else {
                        Err::<(), _>(GovernanceError::QuorumNotReached)
                    }
                },
            },
            old(self).has_proposal(proposal_id) && now <= old(self).proposal(
                proposal_id,
            ).voting_ends_at ==> result is Err && *final(self) == *old(self),
            old(self).has_proposal(proposal_id) && old(self).proposal(proposal_id).status
                == ProposalStatus::Active && now <= old(self).proposal(proposal_id).voting_ends_at
                ==> result == Err::<(), _>(GovernanceError::VotingNotEnded),
    {
        if proposal_id < 1 || proposal_id - 1 >= self.proposals.len() as u64 {
            return Err(GovernanceError::ProposalNotFound);
        }
        let index: usize = (proposal_id - 1) as usize;
        if self.proposals[index].status != ProposalStatus::Active {
            return Err(GovernanceError::ProposalNotActive);
        }
        if now <= self.proposals[index].voting_ends_at {
            return Err(GovernanceError::VotingNotEnded);
        }
        let config = self.config.unwrap();
        let votes_for: u32 = self.proposals[index].votes_for;
        let votes_against: u32 = self.proposals[index].votes_against;
        let enough: bool = votes_for as u64 + votes_against as u64 >= config.quorum_percent as u64;
        self.proposals[index].status = decide(
            votes_for,
            votes_against,
            config.quorum_percent,
            config.pass_threshold,
        );
        if enough {
            Ok(())
        } else {
            Err(GovernanceError::QuorumNotReached)
        }
    }

    /// What executing a proposal of this type asks of the caller.
    pub open spec fn effect_of(config: GovernanceConfig, proposal_type: ProposalType) -> ExecutionEffect {
        match proposal_type {
            ProposalType::SpendFunds { amount, recipient, .. } => ExecutionEffect::Transfer {
                token_contract: config.token_contract,
                from: config.community_wallet,
                to: recipient,
                amount,
            },
            ProposalType::CreateDEXOffer { amount, price } => ExecutionEffect::AnnounceOffer {
                wallet: config.community_wallet,
                amount,
                price,
            },
            _ => ExecutionEffect::Nothing,
        }
    }

    /// Why an execution is refused, if it is. The conditions are tried in this order: the
    /// proposal, its status, the amount of a spending.
    pub open spec fn execute_refusal(&self, proposal_id: u64) -> Option<GovernanceError> {
        if !self.has_proposal(proposal_id) {
            Some(GovernanceError::ProposalNotFound)
        } else if self.proposal(proposal_id).status != ProposalStatus::Passed {
            Some(GovernanceError::NotPassed)
        } else if self.proposal(proposal_id).proposal_type is SpendFunds && self.proposal(
            proposal_id,
        ).proposal_type->SpendFunds_amount <= 0 {
            Some(GovernanceError::InvalidAmount)
        } else {
            None
        }
    }

    /// `post` is `self` with proposal `proposal_id` marked as executed.
    pub open spec fn executed(&self, post: &Self, proposal_id: u64) -> bool {
        &&& self.has_proposal(proposal_id)
        &&& post.config == self.config
        &&& post.votes == self.votes
        &&& post.trades == self.trades
        &&& post.offers == self.offers
        &&& post.proposals@ == self.proposals@.update(
            proposal_id - 1,
            Proposal { status: ProposalStatus::Executed, ..self.proposal(proposal_id) },
        )
    }

    /// What the execution of a passed proposal asks of the caller. Nothing changes here:
    /// the caller carries the effect out and tells `execute_proposal` how that went. A
    /// spending of nothing or less is refused.
    pub fn execution_effect(&self, proposal_id: u64) -> (result: Result<
        ExecutionEffect,
        GovernanceError,
    >)
        requires
            self.wf(),
        ensures
            match result {
                Ok(effect) => {
                    &&& self.execute_refusal(proposal_id) is None
                    &&& self.config is Some
                    &&& effect == Self::effect_of(
                        self.config->Some_0,
                        self.proposal(proposal_id).proposal_type,
                    )
                },
                Err(e) => self.execute_refusal(proposal_id) == Some(e),
            },
    {
        if proposal_id < 1 || proposal_id - 1 >= self.proposals.len() as u64 {
            return Err(GovernanceError::ProposalNotFound);
        }
        let index: usize = (proposal_id - 1) as usize;
        if self.proposals[index].status != ProposalStatus::Passed {
            return Err(GovernanceError::NotPassed);
        }
        let config = self.config.unwrap();
        match &self.proposals[index].proposal_type {
            ProposalType::SpendFunds { amount, recipient, description: _ } => {
                if *amount <= 0 {
                    return Err(GovernanceError::InvalidAmount);
                }
                Ok(
                    ExecutionEffect::Transfer {
                        token_contract: config.token_contract,
                        from: config.community_wallet,
                        to: *recipient,
                        amount: *amount,
                    },
                )
            },
            ProposalType::CreateDEXOffer { amount, price } => Ok(
                ExecutionEffect::AnnounceOffer {
                    wallet: config.community_wallet,
                    amount: *amount,
                    price: *price,
                },
            ),
            _ => Ok(ExecutionEffect::Nothing),
        }
    }

    /// Executes a passed proposal. `outcome` says how carrying out its effect went (see
    /// `execution_effect`): if that failed, the failure is handed back and the proposal
    /// stays passed; if it went well, the proposal is marked as executed. Since only a
    /// passed proposal is executed and an executed one is no longer passed, no proposal
    /// is executed twice. A refused call changes nothing.
    pub fn execute_proposal(&mut self, proposal_id: u64, outcome: Result<(), GovernanceError>) -> (result:
        Result<(), GovernanceError>)
        requires
            old(self).wf(),
        ensures
            final(self).wf(),
            match old(self).execute_refusal(proposal_id) {
                Some(e) => result == Err::<(), _>(e) && *final(self) == *old(self),
                None => match outcome {
                    Ok(()) => result is Ok && old(self).executed(final(self), proposal_id),
                    Err(e) => result == Err::<(), _>(e) && *final(self) == *old(self),
                },
            },
    {
        if proposal_id < 1 || proposal_id - 1 >= self.proposals.len() as u64 {
            return Err(GovernanceError::ProposalNotFound);
        }
        let index: usize = (proposal_id - 1) as usize;
        match self.execution_effect(proposal_id) {
            Err(e) => {
                return Err(e);
            },
            Ok(_) => {},
        }
        match outcome {
            Err(e) => Err(e),
            Ok(()) => {
                self.proposals[index].status = ProposalStatus::Executed;
                Ok(())
            },
        }
    }

    /// The proposals that are still active, in the order of their numbers.
    pub fn get_active_proposals(&self) -> (active: Vec<Proposal>)
        ensures
            active@ == active_among(self.proposals@),
    {
        let mut active: Vec<Proposal> = Vec::new();
        let mut i: usize = 0;
        assert(self.proposals@.take(0) =~= Seq::<Proposal>::empty());
        while i < self.proposals.len()
            invariant
                i <= self.proposals@.len(),
                active@ == active_among(self.proposals@.take(i as int)),
            decreases self.proposals.len() - i,
        {
            assert(self.proposals@.take(i + 1).drop_last() =~= self.proposals@.take(i as int));
            if self.proposals[i].status == ProposalStatus::Active {
                active.push(self.proposals[i].clone());
            }
            i += 1;
        }
        assert(self.proposals@.take(self.proposals@.len() as int) =~= self.proposals@);
        active
    }

    /// Why a sell offer is refused, if it is. The conditions are tried in this order: the
    /// seller's authorization, the amount and the price, the configuration, the seller's
    /// balance.
    pub open spec fn offer_refusal(
        &self,
        signers: Seq<Address>,
        seller: Address,
        amount: i128,
        price_per_kwh: i128,
        balance: i128,
    ) -> Option<GovernanceError> {
        if !signers.contains(seller) {
            Some(GovernanceError::Unauthorized)
        } else if amount <= 0 || price_per_kwh <= 0 {
            Some(GovernanceError::InvalidAmount)
        } else if self.config is None {
            Some(GovernanceError::NotInitialized)
        } else if balance < amount {
            Some(GovernanceError::InsufficientBalance)
        } else {
            None
        }
    }

    /// Registers a member's sell offer and returns its number, which is the number of
    /// the ledger at the time of the call. `balance` is what the seller holds in tokens,
    /// `signers` are the principals that authorized this call. A refused call changes
    /// nothing.
    pub fn create_dex_sell_offer(
        &mut self,
        signers: &Vec<Address>,
        seller: Address,
        amount: i128,
        price_per_kwh: i128,
        balance: i128,
        ledger_sequence: u32,
    ) -> (result: Result<i64, GovernanceError>)
        requires
            old(self).wf(),
        ensures
            final(self).wf(),
            match result {
                Ok(offer_id) => {
                    &&& old(self).offer_refusal(signers@, seller, amount, price_per_kwh, balance)
                        is None
                    &&& offer_id == ledger_sequence
                    &&& final(self).offers@ == old(self).offers@.push(DEXOffer { seller, offer_id })
                    &&& final(self).config == old(self).config
                    &&& final(self).proposals == old(self).proposals
                    &&& final(self).votes == old(self).votes
                    &&& final(self).trades == old(self).trades
                },
                Err(e) => {
                    &&& old(self).offer_refusal(signers@, seller, amount, price_per_kwh, balance)
                        == Some(e)
                    &&& *final(self) == *old(self)
                },
            },
    {
        if !contains_address(signers, seller) {
            return Err(GovernanceError::Unauthorized);
        }
        if amount <= 0 || price_per_kwh <= 0 {
            return Err(GovernanceError::InvalidAmount);
        }
        if self.config.is_none() {
            return Err(GovernanceError::NotInitialized);
        }
        if balance < amount {
            return Err(GovernanceError::InsufficientBalance);
        }
        let offer_id: i64 = ledger_sequence as i64;
        self.offers.push(DEXOffer { seller, offer_id });
        Ok(offer_id)
    }

    /// Records a trade that the indexer reports and returns its number, which is one
    /// more than that of the trade before it. `signers` are the principals that
    /// authorized this call; the administrator has to be one of them. A refused call
    /// changes nothing.
    pub fn record_dex_trade(
        &mut self,
        signers: &Vec<Address>,
        now: u64,
        seller: Address,
        buyer: Address,
        amount: i128,
        price: i128,
        offer_id: i64,
    ) -> (result: Result<u64, GovernanceError>)
        requires
            old(self).wf(),
            old(self).config is Some && signers@.contains(old(self).config->Some_0.admin)
                ==> old(self).trades@.len() < u64::MAX,
        ensures
            final(self).wf(),
            old(self).config is None ==> result == Err::<u64, _>(GovernanceError::NotInitialized),
            old(self).config is Some && !signers@.contains(old(self).config->Some_0.admin)
                ==> result == Err::<u64, _>(GovernanceError::Unauthorized),
            old(self).config is Some && signers@.contains(old(self).config->Some_0.admin)
                ==> result is Ok,
            result is Err ==> *final(self) == *old(self),
            match result {
                Ok(trade_id) => {
                    &&& trade_id == old(self).trades@.len() + 1
                    &&& final(self).trades@ == old(self).trades@.push(
                        DEXTrade { trade_id, seller, buyer, amount, price, timestamp: now, offer_id },
                    )
                    &&& final(self).config == old(self).config
                    &&& final(self).proposals == old(self).proposals
                    &&& final(self).votes == old(self).votes
                    &&& final(self).offers == old(self).offers
                },
                Err(_) => true,
            },
    {
        let admin: Address = match self.config {
            None => {
                return Err(GovernanceError::NotInitialized);
            },
            Some(config) => config.admin,
        };
        if !contains_address(signers, admin) {
            return Err(GovernanceError::Unauthorized);
        }
        let trade_id: u64 = (self.trades.len() as u64) + 1;
        self.trades.push(
            DEXTrade { trade_id, seller, buyer, amount, price, timestamp: now, offer_id },
        );
        Ok(trade_id)
    }

    /// The numbers of the offers that `user` has registered, in their order.
    pub fn get_user_offers(&self, user: Address) -> (offers: Vec<i64>)
        ensures
            offers@ == offers_of(self.offers@, user),
    {
        let mut offers: Vec<i64> = Vec::new();
        let mut i: usize = 0;
        assert(self.offers@.take(0) =~= Seq::<DEXOffer>::empty());
        while i < self.offers.len()
            invariant
                i <= self.offers@.len(),
                offers@ == offers_of(self.offers@.take(i as int), user),
            decreases self.offers.len() - i,
        {
            assert(self.offers@.take(i + 1).drop_last() =~= self.offers@.take(i as int));
            if self.offers[i].seller == user {
                offers.push(self.offers[i].offer_id);
            }
            i += 1;
        }
        assert(self.offers@.take(self.offers@.len() as int) =~= self.offers@);
        offers
    }

    /// The trade with number `trade_id`. A number without a trade is reported as
    /// `ProposalNotFound`.
    pub fn get_trade(&self, trade_id: u64) -> (result: Result<DEXTrade, GovernanceError>)
        requires
            self.wf(),
        ensures
            match result {
                Ok(trade) => 1 <= trade_id <= self.trades@.len() && trade == self.trades@[trade_id
                    - 1] && trade.trade_id == trade_id,
                Err(e) => !(1 <= trade_id <= self.trades@.len()) && e
                    == GovernanceError::ProposalNotFound,
            },
    {
        if trade_id >= 1 && trade_id - 1 < self.trades.len() as u64 {
            Ok(self.trades[(trade_id - 1) as usize])
        } else {
            Err(GovernanceError::ProposalNotFound)
        }
    }
}

} // verus!
