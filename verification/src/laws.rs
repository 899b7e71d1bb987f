use crate::address::Address;
use crate::distribution::EnergyDistribution;
use crate::governance::{
    CommunityGovernance, GovernanceError, ProposalStatus, ProposalType, Vote,
};
use crate::membership::percent_of;
use crate::tally::{has_voted, weight_cast};
use crate::wellformed::proposal_consistent;
use vstd::prelude::*;

verus! {

/// How many of `flags` are set.
pub open spec fn count_true(flags: Seq<bool>) -> nat
    decreases flags.len(),
{
    if flags.len() == 0 {
        0
    } else {
        count_true(flags.drop_last()) + if flags.last() {
            1nat
        } else {
            0nat
        }
    }
}

/// Whether a proposal that stands at `from` can ever stand at `to`: it stays, or it
/// leaves `Active`, or it goes from `Passed` to `Executed`.
pub open spec fn status_reachable(from: ProposalStatus, to: ProposalStatus) -> bool {
    from == to || from == ProposalStatus::Active || (from == ProposalStatus::Passed && to
        == ProposalStatus::Executed)
}

impl CommunityGovernance {
    /// `later` can come after `self`: the configuration, once set, stays; proposals and
    /// votes are only added, never removed or renumbered; a vote on record stays as it
    /// is; and each proposal keeps what it was created with, while its status only moves
    /// forward and its tallies stand still once it has left `Active`.
    pub open spec fn evolves_to(&self, later: &Self) -> bool {
        &&& self.config is Some ==> later.config == self.config
        &&& self.proposals@.len() <= later.proposals@.len()
        &&& forall|i: int|
            0 <= i < self.proposals@.len() ==> {
                let before = #[trigger] self.proposals@[i];
                let after = later.proposals@[i];
                &&& status_reachable(before.status, after.status)
                &&& after.proposal_id == before.proposal_id
                &&& after.proposer == before.proposer
                &&& after.proposal_type == before.proposal_type
                &&& after.description == before.description
                &&& after.created_at == before.created_at
                &&& after.voting_ends_at == before.voting_ends_at
                &&& before.status != ProposalStatus::Active ==> {
                    &&& after.votes_for == before.votes_for
                    &&& after.votes_against == before.votes_against
                    &&& after.total_voters == before.total_voters
                }
            }
        &&& self.votes@.len() <= later.votes@.len()
        &&& forall|k: int| 0 <= k < self.votes@.len() ==> later.votes@[k] == #[trigger] self.votes@[k]
    }

    /// Every accepted creation, vote, finalization and execution leads to a state that can
    /// come after the one before it.
    pub proof fn lemma_steps_evolve(
        pre: Self,
        post: Self,
        now: u64,
        proposer: Address,
        proposal_type: ProposalType,
        description: String,
        vote: Vote,
        proposal_id: u64,
    )
        requires
            pre.wf(),
            ({
                ||| pre.proposal_created(&post, now, proposer, proposal_type, description)
                ||| pre.proposal(vote.proposal_id).status == ProposalStatus::Active
                    && pre.vote_recorded(&post, vote)
                ||| pre.finalize_refusal(now, proposal_id) is None && pre.finalized(
                    &post,
                    proposal_id,
                )
                ||| pre.execute_refusal(proposal_id) is None && pre.executed(&post, proposal_id)
            }),
        ensures
            pre.evolves_to(&post),
    {
    }

    /// What can come after a state that can come after `first` can come after `first`.
    pub proof fn lemma_evolution_is_transitive(first: Self, second: Self, third: Self)
        requires
            first.evolves_to(&second),
            second.evolves_to(&third),
        ensures
            first.evolves_to(&third),
    {
        assert forall|i: int| 0 <= i < first.proposals@.len() implies {
            let before = #[trigger] first.proposals@[i];
            let after = third.proposals@[i];
            &&& status_reachable(before.status, after.status)
            &&& after.proposal_id == before.proposal_id
            &&& after.proposer == before.proposer
            &&& after.proposal_type == before.proposal_type
            &&& after.description == before.description
            &&& after.created_at == before.created_at
            &&& after.voting_ends_at == before.voting_ends_at
            &&& before.status != ProposalStatus::Active ==> {
                &&& after.votes_for == before.votes_for
                &&& after.votes_against == before.votes_against
                &&& after.total_voters == before.total_voters
            }
        } by {
            let middle = second.proposals@[i];
        }
        assert forall|k: int| 0 <= k < first.votes@.len() implies third.votes@[k]
            == #[trigger] first.votes@[k] by {
            let middle = second.votes@[k];
        }
    }

    /// A recorded vote is on record.
    pub proof fn lemma_vote_on_record(pre: Self, post: Self, vote: Vote)
        requires
            pre.vote_recorded(&post, vote),
        ensures
            has_voted(post.votes@, vote.proposal_id, vote.voter),
    {
        assert(post.votes@[pre.votes@.len() as int] == vote);
    }

    /// One vote for each voter on each proposal: once a vote of `voter` on a proposal is
    /// on record, every later vote of `voter` on that proposal is refused, whoever
    /// authorizes it and whenever it comes. It is refused as `AlreadyVoted` where the
    /// voter is a signer and still a member and the proposal is active with its window
    /// open: what is tried before the earlier vote.
    pub proof fn lemma_second_vote_refused(
        pre: Self,
        later: Self,
        ledger: EnergyDistribution,
        signers: Seq<Address>,
        now: u64,
        voter: Address,
        proposal_id: u64,
    )
        requires
            pre.wf(),
            later.wf(),
            has_voted(pre.votes@, proposal_id, voter),
            pre.evolves_to(&later),
        ensures
            has_voted(later.votes@, proposal_id, voter),
            later.has_proposal(proposal_id),
            later.vote_refusal(&ledger, signers, now, voter, proposal_id) is Some,
            signers.contains(voter) && ledger.members_initialized && percent_of(
                ledger.members@,
                voter,
            ) is Some && later.proposal(proposal_id).status
                == ProposalStatus::Active && now <= later.proposal(proposal_id).voting_ends_at
                ==> later.vote_refusal(&ledger, signers, now, voter, proposal_id) == Some(
                GovernanceError::AlreadyVoted,
            ),
    {
        let k = choose|k: int|
            0 <= k < pre.votes@.len() && (#[trigger] pre.votes@[k]).proposal_id == proposal_id
                && pre.votes@[k].voter == voter;
        assert(later.votes@[k] == pre.votes@[k]);
    }

    /// No proposal is executed twice: once a proposal is executed, every later
    /// execution of it is refused as `NotPassed`.
    pub proof fn lemma_executed_once(pre: Self, post: Self, later: Self, proposal_id: u64)
        requires
            pre.executed(&post, proposal_id),
            post.evolves_to(&later),
        ensures
            later.proposal(proposal_id).status == ProposalStatus::Executed,
            later.execute_refusal(proposal_id) == Some(GovernanceError::NotPassed),
    {
        assert(post.proposals@[proposal_id - 1].status == ProposalStatus::Executed);
    }

    /// `post` is what a call for the execution of `proposal_id`, with an effect that went
    /// well, makes of `self`: the proposal executed, or nothing changed where the call is
    /// refused.
    pub open spec fn after_execution_call(&self, post: &Self, proposal_id: u64) -> bool {
        match self.execute_refusal(proposal_id) {
            Some(_) => *post == *self,
            None => self.executed(post, proposal_id),
        }
    }

    /// However often the execution of a proposal is called for in a row, only the first
    /// call executes it. `run` holds the states before and after each call; if the first
    /// call is not refused, then every later call finds the proposal executed, is refused
    /// as `NotPassed`, so that it asks for no effect, and changes nothing.
    pub proof fn lemma_repeated_execution(run: Seq<Self>, proposal_id: u64, k: int)
        requires
            run[0].execute_refusal(proposal_id) is None,
            forall|i: int|
                0 <= i < run.len() - 1 ==> (#[trigger] run[i]).after_execution_call(
                    &run[i + 1],
                    proposal_id,
                ),
            1 <= k < run.len(),
        ensures
            run[k].proposal(proposal_id).status == ProposalStatus::Executed,
            run[k].execute_refusal(proposal_id) == Some(GovernanceError::NotPassed),
            run[k] == run[1],
        decreases k,
    {
        if k == 1 {
            assert(run[0].after_execution_call(&run[1], proposal_id));
            assert(run[1].proposals@[proposal_id - 1].status == ProposalStatus::Executed);
        } else {
            Self::lemma_repeated_execution(run, proposal_id, k - 1);
            assert(run[k - 1].after_execution_call(&run[k], proposal_id));
        }
    }

    /// `post` comes from `self` by a call that created a proposal, if `created`, and by a
    /// call that created none, accepted or refused, if not.
    pub open spec fn counter_step(&self, post: &Self, created: bool) -> bool {
        post.last_proposal_id() == self.last_proposal_id() + if created {
            1nat
        } else {
            0nat
        }
    }

    /// Numbers go up by one from 1, without a gap and without a repeat: in a run of
    /// calls on an engine that starts without proposals, the counter stands at the number
    /// of creations so far, so that the creation that comes after `n` others gets the
    /// number `n + 1`. `run` holds the states before and after each call, `created` says
    /// which calls created a proposal.
    pub proof fn lemma_creations_count_up(run: Seq<Self>, created: Seq<bool>, k: int)
        requires
            run.len() == created.len() + 1,
            run[0].last_proposal_id() == 0,
            forall|i: int|
                0 <= i < created.len() ==> (#[trigger] run[i]).counter_step(
                    &run[i + 1],
                    created[i],
                ),
            0 <= k <= created.len(),
        ensures
            run[k].last_proposal_id() == count_true(created.take(k)),
            k < created.len() && created[k] ==> run[k + 1].last_proposal_id() == count_true(
                created.take(k),
            ) + 1,
        decreases k,
    {
        if k > 0 {
            Self::lemma_creations_count_up(run, created, k - 1);
            assert(run[k - 1].counter_step(&run[k], created[k - 1]));
            assert(created.take(k).drop_last() =~= created.take(k - 1));
        } else {
            assert(created.take(0) =~= Seq::<bool>::empty());
        }
        if k < created.len() {
            assert(run[k].counter_step(&run[k + 1], created[k]));
        }
    }

    /// The proposal counter moves only when a proposal is created, and then by one, to a
    /// number that no proposal had before: so the numbers that creations return go up by
    /// one each time, whatever happens in between.
    pub proof fn lemma_proposal_ids_monotonic(
        pre: Self,
        post: Self,
        now: u64,
        proposer: Address,
        proposal_type: ProposalType,
        description: String,
        vote: Vote,
        proposal_id: u64,
    )
        requires
            pre.wf(),
        ensures
            pre.proposal_created(&post, now, proposer, proposal_type, description)
                ==> post.last_proposal_id() == pre.last_proposal_id() + 1,
            pre.vote_recorded(&post, vote) ==> post.last_proposal_id() == pre.last_proposal_id(),
            pre.finalized(&post, proposal_id) ==> post.last_proposal_id()
                == pre.last_proposal_id(),
            pre.executed(&post, proposal_id) ==> post.last_proposal_id() == pre.last_proposal_id(),
            pre.evolves_to(&post) ==> post.last_proposal_id() >= pre.last_proposal_id(),
            pre.proposal_created(&post, now, proposer, proposal_type, description)
                ==> pre.counter_step(&post, true) && forall|i: int|
                0 <= i < pre.proposals@.len() ==> (#[trigger] pre.proposals@[i]).proposal_id
                    < post.last_proposal_id(),
            pre.vote_recorded(&post, vote) || pre.finalized(&post, proposal_id) || pre.executed(
                &post,
                proposal_id,
            ) || post == pre ==> pre.counter_step(&post, false),
    {
    }

    /// Only what the votes on record carry is executed: the votes on an executed proposal
    /// carry some weight and reach the quorum, and the share of their weight that is in
    /// favor reaches the pass threshold.
    pub proof fn lemma_executed_had_the_votes(state: Self, proposal_id: u64)
        requires
            state.wf(),
            state.has_proposal(proposal_id),
            state.proposal(proposal_id).status == ProposalStatus::Executed,
        ensures
            ({
                let in_favor = weight_cast(state.votes@, proposal_id, true) as int;
                let against = weight_cast(state.votes@, proposal_id, false) as int;
                &&& state.config is Some
                &&& in_favor + against > 0
                &&& in_favor + against >= state.config->Some_0.quorum_percent
                &&& (in_favor * 100) / (in_favor + against) >= state.config->Some_0.pass_threshold
            }),
    {
        let proposal = state.proposals@[proposal_id - 1];
        assert(proposal_consistent(proposal, state.config->Some_0));
        assert(proposal.votes_for == weight_cast(state.votes@, ((proposal_id - 1) + 1) as u64, true));
    }

    /// No two proposals share a number, and no two votes share proposal and voter.
    pub proof fn lemma_keys_are_unique(state: Self, i: int, j: int)
        requires
            state.wf(),
            i != j,
        ensures
            0 <= i < state.proposals@.len() && 0 <= j < state.proposals@.len()
                ==> state.proposals@[i].proposal_id != state.proposals@[j].proposal_id,
            0 <= i < state.votes@.len() && 0 <= j < state.votes@.len() ==> !(
            state.votes@[i].proposal_id == state.votes@[j].proposal_id && state.votes@[i].voter
                == state.votes@[j].voter),
    {
        if 0 <= i < state.votes@.len() && 0 <= j < state.votes@.len() {
            if i < j {
                assert(!(state.votes@[i].proposal_id == state.votes@[j].proposal_id
                    && state.votes@[i].voter == state.votes@[j].voter));
            } else {
                assert(!(state.votes@[j].proposal_id == state.votes@[i].proposal_id
                    && state.votes@[j].voter == state.votes@[i].voter));
            }
        }
    }
}

} // verus!
