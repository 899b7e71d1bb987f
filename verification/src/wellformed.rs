use crate::governance::{CommunityGovernance, GovernanceConfig, Proposal, ProposalStatus};
use crate::tally::{decide, decided_status, tally_votes, voters_on, weight_cast};
use vstd::prelude::*;

verus! {

/// What holds of every proposal under its configuration: its voting window has the
/// configured length, and if it passed, was executed or was rejected, then that is how
/// its tallies decide it.
pub open spec fn proposal_consistent(proposal: Proposal, config: GovernanceConfig) -> bool {
    let decided = decided_status(
        proposal.votes_for,
        proposal.votes_against,
        config.quorum_percent,
        config.pass_threshold,
    );
    &&& proposal.voting_ends_at == proposal.created_at + config.voting_period
    &&& (proposal.status == ProposalStatus::Passed || proposal.status == ProposalStatus::Executed)
        ==> decided == ProposalStatus::Passed
    &&& proposal.status == ProposalStatus::Rejected ==> decided == ProposalStatus::Rejected
}

impl CommunityGovernance {
    /// There is no proposal without a configuration.
    pub open spec fn config_valid(&self) -> bool {
        self.config is None ==> self.proposals@.len() == 0
    }

    /// Proposals and trades are numbered from 1 without a gap.
    pub open spec fn numbered(&self) -> bool {
        &&& forall|i: int|
            0 <= i < self.proposals@.len() ==> (#[trigger] self.proposals@[i]).proposal_id == i + 1
        &&& forall|i: int|
            0 <= i < self.trades@.len() ==> (#[trigger] self.trades@[i]).trade_id == i + 1
    }

    /// Every vote is on an existing proposal, weighs at most 100, and was cast before
    /// the voting window of its proposal closed.
    pub open spec fn votes_valid(&self) -> bool {
        forall|k: int|
            0 <= k < self.votes@.len() ==> {
                let vote = #[trigger] self.votes@[k];
                &&& 1 <= vote.proposal_id <= self.proposals@.len()
                &&& vote.weight <= 100
                &&& vote.timestamp <= self.proposals@[vote.proposal_id - 1].voting_ends_at
            }
    }

    /// No two votes share proposal and voter.
    pub open spec fn votes_unique(&self) -> bool {
        forall|j: int, k: int|
            0 <= j < k < self.votes@.len() ==> !((#[trigger] self.votes@[j]).proposal_id == (
            #[trigger] self.votes@[k]).proposal_id && self.votes@[j].voter == self.votes@[k].voter)
    }

    /// Each proposal's tallies are those of the votes on record.
    pub open spec fn tallies_agree(&self) -> bool {
        forall|i: int|
            0 <= i < self.proposals@.len() ==> {
                &&& (#[trigger] self.proposals@[i]).total_voters == voters_on(
                    self.votes@,
                    (i + 1) as u64,
                )
                &&& self.proposals@[i].votes_for == weight_cast(self.votes@, (i + 1) as u64, true)
                &&& self.proposals@[i].votes_against == weight_cast(
                    self.votes@,
                    (i + 1) as u64,
                    false,
                )
            }
    }

    /// Each proposal agrees with the configuration: see `proposal_consistent`.
    pub open spec fn outcomes_agree(&self) -> bool {
        forall|i: int|
            0 <= i < self.proposals@.len() ==> self.config is Some && proposal_consistent(
                #[trigger] self.proposals@[i],
                self.config->Some_0,
            )
    }

    /// The engine's invariant. Proposals and trades are numbered from 1 without a gap.
    /// Every vote is on an existing proposal, weighs at most 100 and was cast in time; no
    /// two votes share proposal and voter; each proposal's tallies are those of the votes
    /// on record; and a proposal that passed, was executed or was rejected is one that
    /// its tallies decide so.
    pub open spec fn wf(&self) -> bool {
        &&& self.config_valid()
        &&& self.numbered()
        &&& self.votes_valid()
        &&& self.votes_unique()
        &&& self.tallies_agree()
        &&& self.outcomes_agree()
    }

    /// Whether the engine's invariant holds: the test for an engine that was put together
    /// from stored parts.
    pub fn is_well_formed(&self) -> (ok: bool)
        ensures
            ok == self.wf(),
    {
        if self.config.is_none() && self.proposals.len() != 0 {
            return false;
        }
        if !self.holds_numbered() || !self.holds_votes_valid() || !self.holds_votes_unique() {
            return false;
        }
        if !self.holds_outcomes() {
            return false;
        }
        self.holds_tallies()
    }

    /// Whether proposals and trades are numbered from 1 without a gap.
    fn holds_numbered(&self) -> (ok: bool)
        ensures
            ok == self.numbered(),
    {
        let mut i: usize = 0;
        while i < self.proposals.len()
            invariant
                i <= self.proposals@.len(),
                forall|j: int| 0 <= j < i ==> (#[trigger] self.proposals@[j]).proposal_id == j + 1,
            decreases self.proposals.len() - i,
        {
            if self.proposals[i].proposal_id != (i as u64) + 1 {
                return false;
            }
            i += 1;
        }
        let mut t: usize = 0;
        while t < self.trades.len()
            invariant
                t <= self.trades@.len(),
                forall|j: int|
                    0 <= j < self.proposals@.len() ==> (#[trigger] self.proposals@[j]).proposal_id
                        == j + 1,
                forall|j: int| 0 <= j < t ==> (#[trigger] self.trades@[j]).trade_id == j + 1,
            decreases self.trades.len() - t,
        {
            if self.trades[t].trade_id != (t as u64) + 1 {
                return false;
            }
            t += 1;
        }
        true
    }

    /// Whether every vote is on an existing proposal, weighs at most 100 and was cast in
    /// time.
    fn holds_votes_valid(&self) -> (ok: bool)
        ensures
            ok == self.votes_valid(),
    {
        let mut k: usize = 0;
        while k < self.votes.len()
            invariant
                k <= self.votes@.len(),
                forall|j: int|
                    0 <= j < k ==> {
                        let vote = #[trigger] self.votes@[j];
                        &&& 1 <= vote.proposal_id <= self.proposals@.len()
                        &&& vote.weight <= 100
                        &&& vote.timestamp <= self.proposals@[vote.proposal_id
                            - 1].voting_ends_at
                    },
            decreases self.votes.len() - k,
        {
            let vote = self.votes[k];
            if vote.proposal_id < 1 || vote.proposal_id - 1 >= self.proposals.len() as u64
                || vote.weight > 100 {
                return false;
            }
            if vote.timestamp > self.proposals[(vote.proposal_id - 1) as usize].voting_ends_at {
                return false;
            }
            k += 1;
        }
        true
    }

    /// Whether no two votes share proposal and voter.
    fn holds_votes_unique(&self) -> (ok: bool)
        ensures
            ok == self.votes_unique(),
    {
        let mut k: usize = 0;
        while k < self.votes.len()
            invariant
                k <= self.votes@.len(),
                forall|a: int, b: int|
                    0 <= a < b < k ==> !((#[trigger] self.votes@[a]).proposal_id == (
                    #[trigger] self.votes@[b]).proposal_id && self.votes@[a].voter
                        == self.votes@[b].voter),
            decreases self.votes.len() - k,
        {
            let later = self.votes[k];
            let mut j: usize = 0;
            while j < k
                invariant
                    j <= k < self.votes@.len(),
                    later == self.votes@[k as int],
                    forall|a: int|
                        0 <= a < j ==> !((#[trigger] self.votes@[a]).proposal_id
                            == later.proposal_id && self.votes@[a].voter == later.voter),
                decreases k - j,
            {
                let earlier = self.votes[j];
                if earlier.proposal_id == later.proposal_id && earlier.voter == later.voter {
                    return false;
                }
                j += 1;
            }
            k += 1;
        }
        true
    }

    /// Whether each proposal's tallies are those of the votes on record.
    fn holds_tallies(&self) -> (ok: bool)
        ensures
            ok == self.tallies_agree(),
    {
        let mut i: usize = 0;
        while i < self.proposals.len()
            invariant
                i <= self.proposals@.len(),
                forall|j: int|
                    0 <= j < i ==> {
                        &&& (#[trigger] self.proposals@[j]).total_voters == voters_on(
                            self.votes@,
                            (j + 1) as u64,
                        )
                        &&& self.proposals@[j].votes_for == weight_cast(
                            self.votes@,
                            (j + 1) as u64,
                            true,
                        )
                        &&& self.proposals@[j].votes_against == weight_cast(
                            self.votes@,
                            (j + 1) as u64,
                            false,
                        )
                    },
            decreases self.proposals.len() - i,
        {
            let tally = tally_votes(&self.votes, (i as u64) + 1);
            let proposal = &self.proposals[i];
            if proposal.total_voters as u128 != tally.0 || proposal.votes_for as u128 != tally.1
                || proposal.votes_against as u128 != tally.2 {
                return false;
            }
            i += 1;
        }
        true
    }

    /// Whether each proposal agrees with the configuration.
    fn holds_outcomes(&self) -> (ok: bool)
        requires
            self.config_valid(),
        ensures
            ok == self.outcomes_agree(),
    {
        let config = match self.config {
            None => {
                return true;
            },
            Some(config) => config,
        };
        let mut i: usize = 0;
        while i < self.proposals.len()
            invariant
                i <= self.proposals@.len(),
                self.config == Some(config),
                forall|j: int|
                    0 <= j < i ==> proposal_consistent(#[trigger] self.proposals@[j], config),
            decreases self.proposals.len() - i,
        {
            let proposal = &self.proposals[i];
            if proposal.voting_ends_at < proposal.created_at || proposal.voting_ends_at
                - proposal.created_at != config.voting_period as u64 {
                return false;
            }
            let decided = decide(
                proposal.votes_for,
                proposal.votes_against,
                config.quorum_percent,
                config.pass_threshold,
            );
            match proposal.status {
                ProposalStatus::Passed | ProposalStatus::Executed => {
                    if decided != ProposalStatus::Passed {
                        return false;
                    }
                },
                ProposalStatus::Rejected => {
                    if decided != ProposalStatus::Rejected {
                        return false;
                    }
                },
                _ => {},
            }
            i += 1;
        }
        true
    }
}

} // verus!
