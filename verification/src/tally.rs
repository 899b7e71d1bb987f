use crate::address::Address;
use crate::governance::{ProposalStatus, Vote};
use vstd::prelude::*;

verus! {

/// The number of votes cast on proposal `id`.
pub open spec fn voters_on(votes: Seq<Vote>, id: u64) -> nat
    decreases votes.len(),
{
    if votes.len() == 0 {
        0
    } else {
        voters_on(votes.drop_last(), id) + if votes.last().proposal_id == id {
            1nat
        } else {
            0nat
        }
    }
}

/// The weight cast on proposal `id` on the side `in_favor`.
pub open spec fn weight_cast(votes: Seq<Vote>, id: u64, in_favor: bool) -> nat
    decreases votes.len(),
{
    if votes.len() == 0 {
        0
    } else {
        weight_cast(votes.drop_last(), id, in_favor) + if votes.last().proposal_id == id
            && votes.last().in_favor == in_favor {
            votes.last().weight as nat
        } else {
            0nat
        }
    }
}

/// Whether `voter` has a vote on proposal `id` on record.
pub open spec fn has_voted(votes: Seq<Vote>, id: u64, voter: Address) -> bool {
    exists|k: int|
        0 <= k < votes.len() && (#[trigger] votes[k]).proposal_id == id && votes[k].voter == voter
}

/// The percentage of the cast weight that is in favor, rounded down. It is asked for
/// only where some weight was cast.
pub open spec fn approval_rate(votes_for: u32, votes_against: u32) -> int
    recommends
        votes_for + votes_against > 0,
{
    (votes_for * 100) / (votes_for + votes_against)
}

/// Whether the cast weight reaches the quorum. The quorum is held against the sum of
/// the weights that were cast, not against the weight of all members.
pub open spec fn quorum_reached(votes_for: u32, votes_against: u32, quorum_percent: u32) -> bool {
    votes_for + votes_against >= quorum_percent
}

/// How a proposal with these tallies is decided once its voting window has closed:
/// rejected below the quorum; else passed if the approval rate reaches the threshold,
/// and rejected if it does not. Where no weight was cast there is no approval rate: such
/// a proposal is rejected, also under a quorum of zero and whatever the threshold.
pub open spec fn decided_status(
    votes_for: u32,
    votes_against: u32,
    quorum_percent: u32,
    pass_threshold: u32,
) -> ProposalStatus {
    if !quorum_reached(votes_for, votes_against, quorum_percent) {
        ProposalStatus::Rejected
    } else if votes_for + votes_against == 0 {
        ProposalStatus::Rejected
    } else if approval_rate(votes_for, votes_against) >= pass_threshold {
        ProposalStatus::Passed
    } else {
        ProposalStatus::Rejected
    }
}

/// One more vote changes the tallies of its own proposal by its weight, on its side,
/// and no other tally.
pub proof fn lemma_tallies_after_push(votes: Seq<Vote>, vote: Vote, id: u64)
    ensures
        voters_on(votes.push(vote), id) == voters_on(votes, id) + if vote.proposal_id == id {
            1nat
        } else {
            0nat
        },
        weight_cast(votes.push(vote), id, true) == weight_cast(votes, id, true) + if vote.proposal_id
            == id && vote.in_favor {
            vote.weight as nat
        } else {
            0nat
        },
        weight_cast(votes.push(vote), id, false) == weight_cast(votes, id, false)
            + if vote.proposal_id == id && !vote.in_favor {
            vote.weight as nat
        } else {
            0nat
        },
{
    assert(votes.push(vote).drop_last() =~= votes);
}

/// With weights of at most 100, the weight cast on a proposal is at most 100 for each
/// of its voters, and it has no more voters than there are votes.
pub proof fn lemma_tally_bound(votes: Seq<Vote>, id: u64)
    requires
        forall|k: int| 0 <= k < votes.len() ==> (#[trigger] votes[k]).weight <= 100,
    ensures
        weight_cast(votes, id, true) + weight_cast(votes, id, false) <= 100 * voters_on(votes, id),
        voters_on(votes, id) <= votes.len(),
    decreases votes.len(),
{
    if votes.len() > 0 {
        lemma_tally_bound(votes.drop_last(), id);
    }
}

/// Votes on the proposals up to number `count` leave the tallies of a later number at
/// zero.
pub proof fn lemma_no_votes_beyond(votes: Seq<Vote>, count: int, id: u64)
    requires
        forall|k: int| 0 <= k < votes.len() ==> (#[trigger] votes[k]).proposal_id <= count,
        id > count,
    ensures
        voters_on(votes, id) == 0,
        weight_cast(votes, id, true) == 0,
        weight_cast(votes, id, false) == 0,
    decreases votes.len(),
{
    if votes.len() > 0 {
        lemma_no_votes_beyond(votes.drop_last(), count, id);
    }
}

/// Decides a proposal by its tallies: rejected below the quorum and where no weight was
/// cast, else passed if the approval rate reaches the threshold, else rejected.
pub fn decide(votes_for: u32, votes_against: u32, quorum_percent: u32, pass_threshold: u32) -> (status:
    ProposalStatus)
    ensures
        status == decided_status(votes_for, votes_against, quorum_percent, pass_threshold),
{
    let in_favor: u64 = votes_for as u64;
    let total_votes: u64 = in_favor + votes_against as u64;
    if total_votes < quorum_percent as u64 || total_votes == 0 {
        return ProposalStatus::Rejected;
    }
    let approval: u64 = (in_favor * 100) / total_votes;
    if approval >= pass_threshold as u64 {
        ProposalStatus::Passed
    } else {
        ProposalStatus::Rejected
    }
}

/// The tallies of the votes on proposal `id`: its voters, the weight in favor, the weight
/// against.
pub fn tally_votes(votes: &Vec<Vote>, id: u64) -> (tally: (u128, u128, u128))
    ensures
        tally.0 == voters_on(votes@, id),
        tally.1 == weight_cast(votes@, id, true),
        tally.2 == weight_cast(votes@, id, false),
{
    let mut voters: u128 = 0;
    let mut in_favor: u128 = 0;
    let mut against: u128 = 0;
    let mut k: usize = 0;
    assert(votes@.take(0) =~= Seq::<Vote>::empty());
    while k < votes.len()
        invariant
            k <= votes@.len(),
            voters == voters_on(votes@.take(k as int), id),
            in_favor == weight_cast(votes@.take(k as int), id, true),
            against == weight_cast(votes@.take(k as int), id, false),
            voters <= k,
            in_favor <= k * 0x1_0000_0000,
            against <= k * 0x1_0000_0000,
        decreases votes.len() - k,
    {
        assert(votes@.take(k + 1).drop_last() =~= votes@.take(k as int));
        let vote = votes[k];
        if vote.proposal_id == id {
            voters += 1;
            if vote.in_favor {
                in_favor += vote.weight as u128;
            } else {
                against += vote.weight as u128;
            }
        }
        k += 1;
    }
    assert(votes@.take(votes@.len() as int) =~= votes@);
    (voters, in_favor, against)
}

} // verus!
