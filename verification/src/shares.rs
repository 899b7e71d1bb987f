use crate::address::Address;
use crate::membership::{total_percent, Member};
use vstd::prelude::*;

verus! {

/// The tokens owed to one member for one report of generation.
#[derive(Clone, Copy, Debug, PartialEq, Eq, Structural)]
pub struct Share {
    pub member: Address,
    pub amount: i128,
}

/// Token units per kWh: the token has seven decimals.
pub const UNITS_PER_KWH: i128 = 10_000_000;

/// The most kWh whose token units fit their type.
pub const MAX_KWH: i128 = 17_014_118_346_046_923_173_168_730_371_588;

/// The token units that stand for `total_amount` kWh.
pub open spec fn units_of(total_amount: i128) -> int {
    total_amount * UNITS_PER_KWH
}

/// The tokens that a holder of `percent` percent gets out of `total_units`: the exact
/// proportion, rounded down.
pub open spec fn share_of(total_units: int, percent: u32) -> int {
    (total_units * percent) / 100
}

/// The shares that `total_units` are split into, one for each entry of `members`, in order.
pub open spec fn shares_for(members: Seq<Member>, total_units: int) -> Seq<Share> {
    Seq::new(
        members.len(),
        |i: int|
            (Share {
                member: members[i].address,
                amount: share_of(total_units, members[i].percent) as i128,
            }),
    )
}

/// The sum of the amounts of a list of shares.
pub open spec fn minted_total(shares: Seq<Share>) -> int
    decreases shares.len(),
{
    if shares.len() == 0 {
        0
    } else {
        minted_total(shares.drop_last()) + shares.last().amount
    }
}

/// The sum of what `members` get out of `total_units`.
pub open spec fn distributed(members: Seq<Member>, total_units: int) -> int
    decreases members.len(),
{
    if members.len() == 0 {
        0
    } else {
        distributed(members.drop_last(), total_units) + share_of(
            total_units,
            members.last().percent,
        )
    }
}

/// A share is never negative and never more than the exact proportion, and it misses
/// the exact proportion by less than one unit.
pub proof fn lemma_share_bounds(total_units: int, percent: u32)
    requires
        total_units >= 0,
    ensures
        0 <= share_of(total_units, percent),
        100 * share_of(total_units, percent) <= total_units * percent,
        total_units * percent - 100 * share_of(total_units, percent) <= 99,
        percent <= 100 ==> share_of(total_units, percent) <= total_units,
{
    let x = total_units * percent;
    assert(x >= 0) by (nonlinear_arith)
        requires
            x == total_units * percent,
            total_units >= 0,
            percent >= 0,
    ;
    assert(percent <= 100 ==> x <= total_units * 100) by (nonlinear_arith)
        requires
            x == total_units * percent,
            total_units >= 0,
            percent >= 0,
    ;
}

proof fn lemma_partial_rounding(members: Seq<Member>, total_units: int)
    requires
        total_units >= 0,
    ensures
        0 <= distributed(members, total_units),
        100 * distributed(members, total_units) <= total_units * total_percent(members),
        total_units * total_percent(members) - 100 * distributed(members, total_units) <= 99
            * members.len(),
    decreases members.len(),
{
    if members.len() > 0 {
        let rest = members.drop_last();
        let p = members.last().percent;
        lemma_partial_rounding(rest, total_units);
        lemma_share_bounds(total_units, p);
        assert(total_units * (total_percent(rest) + p) == total_units * total_percent(rest)
            + total_units * p) by (nonlinear_arith);
    }
}

/// Rounding never mints more than was generated, and what it leaves out is less than one
/// unit for each member: with the shares of a membership that holds 100 percent, the sum
/// of the shares is at most `total_units` and falls short of it by less than the number
/// of members.
pub proof fn lemma_rounding_bound(members: Seq<Member>, total_units: int)
    requires
        total_units >= 0,
        total_percent(members) == 100,
    ensures
        0 <= distributed(members, total_units) <= total_units,
        total_units - distributed(members, total_units) < members.len(),
        members.len() >= 1,
{
    lemma_partial_rounding(members, total_units);
}

/// Where the units are a multiple of 100, nothing is lost to rounding: the shares of a
/// membership that holds 100 percent add up to exactly `total_units`.
pub proof fn lemma_exact_split(members: Seq<Member>, total_units: int)
    requires
        total_units >= 0,
        total_units % 100 == 0,
    ensures
        100 * distributed(members, total_units) == total_units * total_percent(members),
        total_percent(members) == 100 ==> distributed(members, total_units) == total_units,
    decreases members.len(),
{
    if members.len() > 0 {
        let rest = members.drop_last();
        let p = members.last().percent as int;
        let q = total_units / 100;
        lemma_exact_split(rest, total_units);
        assert(total_units * p == 100 * (q * p)) by (nonlinear_arith)
            requires
                total_units == 100 * q,
        ;
        assert(share_of(total_units, members.last().percent) == q * p);
        assert(total_units * (total_percent(rest) + p) == total_units * total_percent(rest)
            + total_units * p) by (nonlinear_arith);
    }
}

/// The shares of `shares_for` add up to `distributed`, as long as each fits the amount's
/// type.
pub proof fn lemma_minted_is_distributed(members: Seq<Member>, total_units: int)
    requires
        total_units >= 0,
        forall|i: int|
            0 <= i < members.len() ==> share_of(total_units, (#[trigger] members[i]).percent)
                <= i128::MAX,
    ensures
        minted_total(shares_for(members, total_units)) == distributed(members, total_units),
    decreases members.len(),
{
    if members.len() > 0 {
        lemma_minted_is_distributed(members.drop_last(), total_units);
        assert(shares_for(members, total_units).drop_last() =~= shares_for(
            members.drop_last(),
            total_units,
        ));
        lemma_share_bounds(total_units, members.last().percent);
    }
}

/// Without a negative share, the first `k` shares never add up to more than all of them.
pub proof fn lemma_prefix_minted(shares: Seq<Share>, k: int)
    requires
        0 <= k <= shares.len(),
        forall|j: int| 0 <= j < shares.len() ==> (#[trigger] shares[j]).amount >= 0,
    ensures
        0 <= minted_total(shares.take(k)) <= minted_total(shares),
    decreases shares.len(),
{
    if k == shares.len() {
        assert(shares.take(k) =~= shares);
        if k > 0 {
            lemma_prefix_minted(shares.drop_last(), k - 1);
            assert(shares.drop_last().take(k - 1) =~= shares.drop_last());
        }
    } else {
        lemma_prefix_minted(shares.drop_last(), k);
        assert(shares.drop_last().take(k) =~= shares.take(k));
    }
}

/// Splits `total_units` among `members`: each gets its proportion, rounded down. Each
/// share has to fit the amount's type, as it does wherever no percentage is above 100.
pub fn split_among(members: &Vec<Member>, total_units: i128) -> (shares: Vec<Share>)
    requires
        0 <= total_units,
        forall|i: int|
            0 <= i < members@.len() ==> share_of(
                total_units as int,
                (#[trigger] members@[i]).percent,
            ) <= i128::MAX,
    ensures
        shares@ == shares_for(members@, total_units as int),
{
    let mut shares: Vec<Share> = Vec::new();
    let mut i: usize = 0;
    while i < members.len()
        invariant
            i <= members@.len(),
            0 <= total_units,
            forall|j: int|
                0 <= j < members@.len() ==> share_of(
                    total_units as int,
                    (#[trigger] members@[j]).percent,
                ) <= i128::MAX,
            shares@.len() == i,
            forall|j: int| 0 <= j < i ==> shares@[j] == shares_for(members@, total_units as int)[j],
        decreases members.len() - i,
    {
        let member = members[i];
        // The hundreds and the rest are taken apart, so that no product is larger than
        // the share itself.
        let hundreds: i128 = total_units / 100;
        let rest: i128 = total_units % 100;
        let percent: i128 = member.percent as i128;
        proof {
            assert(members@[i as int] == member);
            assert(total_units * percent == 100 * (hundreds * percent) + rest * percent
                && 0 <= hundreds * percent && 0 <= rest * percent <= 99 * percent)
                by (nonlinear_arith)
                requires
                    total_units == 100 * hundreds + rest,
                    0 <= hundreds,
                    0 <= rest <= 99,
                    0 <= percent,
            ;
            assert(share_of(total_units as int, member.percent) == hundreds * percent + (rest
                * percent) / 100);
        }
        let amount: i128 = hundreds * percent + (rest * percent) / 100;
        shares.push(Share { member: member.address, amount });
        i += 1;
    }
    assert(shares@ =~= shares_for(members@, total_units as int));
    shares
}

/// Whether no share is negative and the shares add up to exactly `units`.
pub fn shares_add_up(shares: &Vec<Share>, units: i128) -> (exact: bool)
    ensures
        exact == ((forall|j: int| 0 <= j < shares@.len() ==> (#[trigger] shares@[j]).amount >= 0)
            && minted_total(shares@) == units),
{
    if units < 0 {
        proof {
            if forall|j: int| 0 <= j < shares@.len() ==> (#[trigger] shares@[j]).amount >= 0 {
                lemma_prefix_minted(shares@, 0);
            }
        }
        return false;
    }
    let mut sum: i128 = 0;
    let mut i: usize = 0;
    assert(shares@.take(0) =~= Seq::<Share>::empty());
    while i < shares.len()
        invariant
            i <= shares@.len(),
            0 <= sum <= units,
            sum == minted_total(shares@.take(i as int)),
            forall|j: int| 0 <= j < i ==> (#[trigger] shares@[j]).amount >= 0,
        decreases shares.len() - i,
    {
        let amount: i128 = shares[i].amount;
        if amount < 0 {
            return false;
        }
        proof {
            assert(shares@.take(i + 1).drop_last() =~= shares@.take(i as int));
            if forall|j: int| 0 <= j < shares@.len() ==> (#[trigger] shares@[j]).amount >= 0 {
                lemma_prefix_minted(shares@, i + 1);
            }
        }
        if amount > units - sum {
            return false;
        }
        sum += amount;
        i += 1;
    }
    assert(shares@.take(shares@.len() as int) =~= shares@);
    sum == units
}

} // verus!
