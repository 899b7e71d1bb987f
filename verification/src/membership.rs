use crate::address::Address;
use vstd::prelude::*;

verus! {

/// One owner of the shared installation and the share it holds.
#[derive(Clone, Copy, Debug, PartialEq, Eq, Structural)]
pub struct Member {
    pub address: Address,
    pub percent: u32,
}

/// The sum of a list of percentages.
pub open spec fn sum_percents(percents: Seq<u32>) -> int
    decreases percents.len(),
{
    if percents.len() == 0 {
        0
    } else {
        sum_percents(percents.drop_last()) + percents.last()
    }
}

/// The sum of the percentages that a list of members holds.
pub open spec fn total_percent(members: Seq<Member>) -> int
    decreases members.len(),
{
    if members.len() == 0 {
        0
    } else {
        total_percent(members.drop_last()) + members.last().percent
    }
}

/// The members that two parallel lists describe: entry `i` pairs address `i` with
/// percentage `i`.
pub open spec fn pair_up(addresses: Seq<Address>, percents: Seq<u32>) -> Seq<Member>
    recommends
        addresses.len() == percents.len(),
{
    Seq::new(
        addresses.len(),
        |i: int| (Member { address: addresses[i], percent: percents[i] }),
    )
}

/// The percentage that the ledger reports for `who`: that of the last entry with this
/// address, if there is one.
pub open spec fn percent_of(members: Seq<Member>, who: Address) -> Option<u32>
    decreases members.len(),
{
    if members.len() == 0 {
        None
    } else if members.last().address == who {
        Some(members.last().percent)
    } else {
        percent_of(members.drop_last(), who)
    }
}

/// Pairing up keeps the sum of the percentages.
pub proof fn lemma_pair_up_total(addresses: Seq<Address>, percents: Seq<u32>)
    requires
        addresses.len() == percents.len(),
    ensures
        total_percent(pair_up(addresses, percents)) == sum_percents(percents),
    decreases percents.len(),
{
    if percents.len() > 0 {
        lemma_pair_up_total(addresses.drop_last(), percents.drop_last());
        assert(pair_up(addresses, percents).drop_last() =~= pair_up(
            addresses.drop_last(),
            percents.drop_last(),
        ));
    }
}

/// The sum of a prefix never exceeds the sum of the whole list.
pub proof fn lemma_prefix_sum(percents: Seq<u32>, k: int)
    requires
        0 <= k <= percents.len(),
    ensures
        0 <= sum_percents(percents.take(k)) <= sum_percents(percents),
    decreases percents.len(),
{
    if k == percents.len() {
        assert(percents.take(k) =~= percents);
        if k > 0 {
            lemma_prefix_sum(percents.drop_last(), k - 1);
            assert(percents.drop_last().take(k - 1) =~= percents.drop_last());
        }
    } else {
        lemma_prefix_sum(percents.drop_last(), k);
        assert(percents.drop_last().take(k) =~= percents.take(k));
    }
}

/// What the first `k` members hold is never more than what all hold.
pub proof fn lemma_prefix_total(members: Seq<Member>, k: int)
    requires
        0 <= k <= members.len(),
    ensures
        0 <= total_percent(members.take(k)) <= total_percent(members),
    decreases members.len(),
{
    if k == members.len() {
        assert(members.take(k) =~= members);
        if k > 0 {
            lemma_prefix_total(members.drop_last(), k - 1);
            assert(members.drop_last().take(k - 1) =~= members.drop_last());
        }
    } else {
        lemma_prefix_total(members.drop_last(), k);
        assert(members.drop_last().take(k) =~= members.take(k));
    }
}

/// No member holds more than all members hold together.
pub proof fn lemma_percent_bounded(members: Seq<Member>, i: int)
    requires
        0 <= i < members.len(),
    ensures
        members[i].percent <= total_percent(members),
        0 <= total_percent(members),
    decreases members.len(),
{
    if members.len() == 1 {
        assert(total_percent(members.drop_last()) == 0);
    } else if i < members.len() - 1 {
        lemma_percent_bounded(members.drop_last(), i);
    } else {
        lemma_percent_bounded(members.drop_last(), 0);
    }
}

/// A percentage that the ledger reports for an address is that of one of its entries.
pub proof fn lemma_percent_of_entry(members: Seq<Member>, who: Address)
    ensures
        match percent_of(members, who) {
            Some(p) => exists|i: int|
                0 <= i < members.len() && #[trigger] members[i] == (Member {
                    address: who,
                    percent: p,
                }),
            None => forall|i: int| 0 <= i < members.len() ==> (#[trigger] members[i]).address != who,
        },
    decreases members.len(),
{
    if members.len() > 0 {
        if members.last().address == who {
            assert(members[members.len() - 1] == members.last());
        } else {
            lemma_percent_of_entry(members.drop_last(), who);
            match percent_of(members.drop_last(), who) {
                Some(p) => {
                    let i = choose|i: int|
                        0 <= i < members.drop_last().len() && #[trigger] members.drop_last()[i] == (
                        Member { address: who, percent: p });
                    assert(members[i] == members.drop_last()[i]);
                },
                None => {
                    assert forall|i: int| 0 <= i < members.len() implies (
                    #[trigger] members[i]).address != who by {
                        if i < members.len() - 1 {
                            assert(members[i] == members.drop_last()[i]);
                        }
                    }
                },
            }
        }
    }
}

/// Whether the percentages add up to exactly 100.
pub fn sums_to_hundred(percents: &Vec<u32>) -> (exact: bool)
    ensures
        exact == (sum_percents(percents@) == 100),
{
    let mut sum: u32 = 0;
    let mut i: usize = 0;
    assert(percents@.take(0) =~= Seq::<u32>::empty());
    while i < percents.len()
        invariant
            i <= percents@.len(),
            sum <= 100,
            sum == sum_percents(percents@.take(i as int)),
        decreases percents.len() - i,
    {
        let p: u32 = percents[i];
        proof {
            assert(percents@.take(i + 1).drop_last() =~= percents@.take(i as int));
            lemma_prefix_sum(percents@, i + 1);
        }
        if p > 100 - sum {
            return false;
        }
        sum += p;
        i += 1;
    }
    assert(percents@.take(percents@.len() as int) =~= percents@);
    sum == 100
}

/// Whether the members hold exactly 100 percent between them.
pub fn holds_hundred(members: &Vec<Member>) -> (exact: bool)
    ensures
        exact == (total_percent(members@) == 100),
{
    let mut sum: u32 = 0;
    let mut i: usize = 0;
    assert(members@.take(0) =~= Seq::<Member>::empty());
    while i < members.len()
        invariant
            i <= members@.len(),
            sum <= 100,
            sum == total_percent(members@.take(i as int)),
        decreases members.len() - i,
    {
        let p: u32 = members[i].percent;
        proof {
            assert(members@.take(i + 1).drop_last() =~= members@.take(i as int));
            lemma_prefix_total(members@, i + 1);
        }
        if p > 100 - sum {
            return false;
        }
        sum += p;
        i += 1;
    }
    assert(members@.take(members@.len() as int) =~= members@);
    sum == 100
}

/// The members that two parallel lists describe.
pub fn paired_members(addresses: &Vec<Address>, percents: &Vec<u32>) -> (members: Vec<Member>)
    requires
        addresses@.len() == percents@.len(),
    ensures
        members@ == pair_up(addresses@, percents@),
{
    let mut members: Vec<Member> = Vec::new();
    let mut k: usize = 0;
    while k < addresses.len()
        invariant
            k <= addresses@.len(),
            addresses@.len() == percents@.len(),
            members@.len() == k,
            forall|j: int|
                0 <= j < k ==> members@[j] == (Member {
                    address: addresses@[j],
                    percent: percents@[j],
                }),
        decreases addresses.len() - k,
    {
        members.push(Member { address: addresses[k], percent: percents[k] });
        k += 1;
    }
    assert(members@ =~= pair_up(addresses@, percents@));
    members
}

} // verus!
