use crate::address::{all_among, all_contained, contains_address, count_distinct, Address};
use crate::membership::{
    holds_hundred, lemma_pair_up_total, lemma_percent_bounded, lemma_percent_of_entry, pair_up,
    paired_members, percent_of, sum_percents, sums_to_hundred, total_percent, Member,
};
use crate::privacy::{
    consumption_bytes, generate_commitment, hash_consumption_data, sha256, verify_commitment,
    MAX_HASH_INPUT,
};
use crate::shares::{
    lemma_exact_split, lemma_minted_is_distributed, lemma_rounding_bound, lemma_share_bounds,
    minted_total, share_of, shares_add_up, shares_for, split_among, units_of, Share, MAX_KWH,
    UNITS_PER_KWH,
};
use vstd::prelude::*;

verus! {

/// Why the ledger refused a call.
#[derive(Clone, Copy, Debug, PartialEq, Eq, Structural)]
pub enum DistributionError {
    /// Fewer distinct approvers than the configuration asks for.
    NotEnoughApprovers,
    /// The list of members and the list of percentages differ in length.
    MemberPercentMismatch,
    /// The percentages do not add up to 100.
    PercentsMustSumTo100,
    /// No membership set has been onboarded yet.
    MembersNotInitialized,
    /// The ledger has no configuration yet.
    NotInitialized,
    /// The ledger already has its configuration.
    AlreadyInitialized,
    /// A principal that had to authorize the call did not.
    Unauthorized,
    /// An amount that has to be positive is not.
    InvalidAmount,
}

/// What is fixed when the ledger is initialized.
#[derive(Clone, Copy, Debug, PartialEq, Eq, Structural)]
pub struct DistributionConfig {
    pub admin: Address,
    pub token_contract: Address,
    pub required_approvals: u32,
}

/// One report of generation and how it was split.
#[derive(Clone, Debug, PartialEq, Eq)]
pub struct GenerationRecord {
    pub id: u64,
    pub timestamp: u64,
    pub total_amount: i128,
    pub shares: Vec<Share>,
}

/// A member's latest consumption commitment.
#[derive(Clone, Copy, Debug, PartialEq, Eq)]
pub struct UserCommitment {
    pub user: Address,
    pub commitment: [u8; 32],
}

/// The membership ledger and the distribution engine that reads it.
#[derive(Clone, Debug)]
pub struct EnergyDistribution {
    pub config: Option<DistributionConfig>,
    pub members_initialized: bool,
    pub members: Vec<Member>,
    pub total_generated: i128,
    pub records: Vec<GenerationRecord>,
    pub privacy_enabled: bool,
    pub commitments: Vec<UserCommitment>,
}

/// The token units of all the generation on record.
pub open spec fn recorded_units(records: Seq<GenerationRecord>) -> int
    decreases records.len(),
{
    if records.len() == 0 {
        0
    } else {
        recorded_units(records.drop_last()) + units_of(records.last().total_amount)
    }
}

/// What holds of every record: it reports a positive amount whose units fit their type,
/// no share is negative, and the shares add up to exactly those units.
pub open spec fn record_consistent(record: GenerationRecord) -> bool {
    &&& record.total_amount > 0
    &&& units_of(record.total_amount) <= i128::MAX
    &&& forall|j: int| 0 <= j < record.shares@.len() ==> (#[trigger] record.shares@[j]).amount >= 0
    &&& minted_total(record.shares@) == units_of(record.total_amount)
}

/// With positive amounts, the first `k` records never hold more units than all of them.
pub proof fn lemma_prefix_recorded(records: Seq<GenerationRecord>, k: int)
    requires
        0 <= k <= records.len(),
        forall|j: int| 0 <= j < records.len() ==> (#[trigger] records[j]).total_amount > 0,
    ensures
        0 <= recorded_units(records.take(k)) <= recorded_units(records),
    decreases records.len(),
{
    if k == records.len() {
        assert(records.take(k) =~= records);
        if k > 0 {
            lemma_prefix_recorded(records.drop_last(), k - 1);
            assert(records.drop_last().take(k - 1) =~= records.drop_last());
        }
    } else {
        lemma_prefix_recorded(records.drop_last(), k);
        assert(records.drop_last().take(k) =~= records.take(k));
    }
}

/// The commitment that is on file for `who`: the last one registered, if there is one.
pub open spec fn commitment_of(commitments: Seq<UserCommitment>, who: Address) -> Option<Seq<u8>>
    decreases commitments.len(),
{
    if commitments.len() == 0 {
        None
    } else if commitments.last().user == who {
        Some(commitments.last().commitment@)
    } else {
        commitment_of(commitments.drop_last(), who)
    }
}

impl EnergyDistribution {
    /// The records are numbered from 1 without a gap, each is consistent in itself (see
    /// `record_consistent`), and the lifetime total is the sum of what they report.
    pub open spec fn records_agree(&self) -> bool {
        &&& forall|i: int|
            0 <= i < self.records@.len() ==> (#[trigger] self.records@[i]).id == i + 1
                && record_consistent(self.records@[i])
        &&& self.total_generated == recorded_units(self.records@)
    }

    /// The ledger's invariant: there is no membership without a configuration, an
    /// onboarded membership holds exactly 100 percent, and the records agree with each
    /// other and with the lifetime total.
    pub open spec fn wf(&self) -> bool {
        &&& self.config is None ==> !self.members_initialized
        &&& self.members_initialized ==> total_percent(self.members@) == 100
        &&& !self.members_initialized ==> self.members@.len() == 0
        &&& self.records_agree()
    }

    /// Whether `who` is among the current members.
    pub open spec fn has_member(&self, who: Address) -> bool {
        exists|i: int| 0 <= i < self.members@.len() && (#[trigger] self.members@[i]).address == who
    }

    /// Everything but the membership is the same in `self` and `other`.
    pub open spec fn same_outside_membership(&self, other: &Self) -> bool {
        &&& self.config == other.config
        &&& self.total_generated == other.total_generated
        &&& self.records == other.records
        &&& self.privacy_enabled == other.privacy_enabled
        &&& self.commitments == other.commitments
    }

    /// Why an onboarding call is refused, if it is. The conditions are tried in this
    /// order: the configuration, the number of distinct approvers, their authorization,
    /// the two lengths, the sum.
    pub open spec fn onboarding_refusal(
        &self,
        signers: Seq<Address>,
        approvers: Seq<Address>,
        members: Seq<Address>,
        percents: Seq<u32>,
    ) -> Option<DistributionError> {
        if self.config is None {
            Some(DistributionError::NotInitialized)
        } else if approvers.to_set().len() < self.config->Some_0.required_approvals {
            Some(DistributionError::NotEnoughApprovers)
        } else if !all_among(approvers, signers) {
            Some(DistributionError::Unauthorized)
        } else if members.len() != percents.len() {
            Some(DistributionError::MemberPercentMismatch)
        } else if sum_percents(percents) != 100 {
            Some(DistributionError::PercentsMustSumTo100)
        } else {
            None
        }
    }

    /// A ledger without configuration and without members.
    pub fn new() -> (ledger: Self)
        ensures
            ledger.wf(),
            ledger.config is None,
            !ledger.members_initialized,
            ledger.members@.len() == 0,
            ledger.total_generated == 0,
            ledger.records@.len() == 0,
            !ledger.privacy_enabled,
            ledger.commitments@.len() == 0,
    {
        EnergyDistribution {
            config: None,
            members_initialized: false,
            members: Vec::new(),
            total_generated: 0,
            records: Vec::new(),
            privacy_enabled: false,
            commitments: Vec::new(),
        }
    }

    /// Whether the ledger's invariant holds: the test for a ledger that was put together
    /// from stored parts.
    pub fn is_well_formed(&self) -> (ok: bool)
        ensures
            ok == self.wf(),
    {
        if self.config.is_none() && self.members_initialized {
            return false;
        }
        if self.members_initialized && !holds_hundred(&self.members) {
            return false;
        }
        if !self.members_initialized && self.members.len() != 0 {
            return false;
        }
        self.holds_records()
    }

    /// Whether the records agree with each other and with the lifetime total.
    fn holds_records(&self) -> (ok: bool)
        ensures
            ok == self.records_agree(),
    {
        if self.total_generated < 0 {
            proof {
                if forall|j: int|
                    0 <= j < self.records@.len() ==> (#[trigger] self.records@[j]).total_amount
                        > 0 {
                    lemma_prefix_recorded(self.records@, 0);
                }
            }
            return false;
        }
        let mut sum: i128 = 0;
        let mut i: usize = 0;
        assert(self.records@.take(0) =~= Seq::<GenerationRecord>::empty());
        while i < self.records.len()
            invariant
                i <= self.records@.len(),
                0 <= sum <= self.total_generated,
                sum == recorded_units(self.records@.take(i as int)),
                forall|j: int|
                    0 <= j < i ==> (#[trigger] self.records@[j]).id == j + 1 && record_consistent(
                        self.records@[j],
                    ),
            decreases self.records.len() - i,
        {
            let record = &self.records[i];
            if record.id != (i as u64) + 1 || record.total_amount <= 0 || record.total_amount
                > MAX_KWH {
                return false;
            }
            let units: i128 = record.total_amount * UNITS_PER_KWH;
            if !shares_add_up(&record.shares, units) {
                return false;
            }
            proof {
                assert(self.records@.take(i + 1).drop_last() =~= self.records@.take(i as int));
                if forall|j: int|
                    0 <= j < self.records@.len() ==> (#[trigger] self.records@[j]).total_amount
                        > 0 {
                    lemma_prefix_recorded(self.records@, i + 1);
                }
            }
            if units > self.total_generated - sum {
                return false;
            }
            sum += units;
            i += 1;
        }
        assert(self.records@.take(self.records@.len() as int) =~= self.records@);
        sum == self.total_generated
    }

    /// Sets the configuration, once. `signers` are the principals that authorized this
    /// call; the administrator has to be one of them.
    pub fn initialize(
        &mut self,
        signers: &Vec<Address>,
        admin: Address,
        token_contract: Address,
        required_approvals: u32,
    ) -> (result: Result<(), DistributionError>)
        requires
            old(self).wf(),
        ensures
            final(self).wf(),
            old(self).config is Some ==> result == Err::<(), _>(
                DistributionError::AlreadyInitialized,
            ),
            old(self).config is None && !signers@.contains(admin) ==> result == Err::<(), _>(
                DistributionError::Unauthorized,
            ),
            old(self).config is None && signers@.contains(admin) ==> result is Ok,
            result is Err ==> *final(self) == *old(self),
            result is Ok ==> final(self).config == Some(
                DistributionConfig { admin, token_contract, required_approvals },
            ) && final(self).members_initialized == old(self).members_initialized
                && final(self).members == old(self).members && final(self).total_generated
                == old(self).total_generated && final(self).records == old(self).records
                && final(self).privacy_enabled == old(self).privacy_enabled
                && final(self).commitments == old(self).commitments,
    {
        if self.config.is_some() {
            return Err(DistributionError::AlreadyInitialized);
        }
        if !contains_address(signers, admin) {
            return Err(DistributionError::Unauthorized);
        }
        self.config = Some(DistributionConfig { admin, token_contract, required_approvals });
        Ok(())
    }

    /// Replaces the whole membership. At least the configured number of distinct approvers
    /// must stand behind the call, each of them among `signers`, the principals that
    /// authorized it. Entry `i` of `members` gets entry `i` of `percents`; the percentages
    /// must add up to 100. A refused call changes nothing.
    pub fn add_members_multisig(
        &mut self,
        signers: &Vec<Address>,
        approvers: &Vec<Address>,
        members: &Vec<Address>,
        percents: &Vec<u32>,
    ) -> (result: Result<(), DistributionError>)
        requires
            old(self).wf(),
        ensures
            final(self).wf(),
            match result {
                Ok(()) => {
                    &&& old(self).onboarding_refusal(signers@, approvers@, members@, percents@)
                        is None
                    &&& final(self).members_initialized
                    &&& final(self).members@ == pair_up(members@, percents@)
                    &&& total_percent(final(self).members@) == 100
                    &&& final(self).same_outside_membership(old(self))
                },
                Err(e) => {
                    &&& old(self).onboarding_refusal(signers@, approvers@, members@, percents@)
                        == Some(e)
                    &&& *final(self) == *old(self)
                },
            },
            sum_percents(percents@) != 100 ==> result is Err && *final(self) == *old(self),
    {
        let required: u32 = match self.config {
            None => {
                return Err(DistributionError::NotInitialized);
            },
            Some(config) => config.required_approvals,
        };
        if count_distinct(approvers) < required as usize {
            return Err(DistributionError::NotEnoughApprovers);
        }
        if !all_contained(approvers, signers) {
            return Err(DistributionError::Unauthorized);
        }
        if members.len() != percents.len() {
            return Err(DistributionError::MemberPercentMismatch);
        }
        if !sums_to_hundred(percents) {
            return Err(DistributionError::PercentsMustSumTo100);
        }
        let fresh = paired_members(members, percents);
        proof {
            lemma_pair_up_total(members@, percents@);
        }
        self.members = fresh;
        self.members_initialized = true;
        Ok(())
    }

    /// Why a report of generation is refused, if it is. The conditions are tried in this
    /// order: the configuration, the administrator's authorization, the membership, the
    /// amount.
    pub open spec fn generation_refusal(&self, signers: Seq<Address>, total_amount: i128) -> Option<
        DistributionError,
    > {
        if self.config is None {
            Some(DistributionError::NotInitialized)
        } else if !signers.contains(self.config->Some_0.admin) {
            Some(DistributionError::Unauthorized)
        } else if !self.members_initialized {
            Some(DistributionError::MembersNotInitialized)
        } else if total_amount <= 0 {
            Some(DistributionError::InvalidAmount)
        } else {
            None
        }
    }

    /// Everything but the records and the lifetime total is the same in `self` and `other`.
    pub open spec fn same_outside_generation(&self, other: &Self) -> bool {
        &&& self.config == other.config
        &&& self.members_initialized == other.members_initialized
        &&& self.members == other.members
        &&& self.privacy_enabled == other.privacy_enabled
        &&& self.commitments == other.commitments
    }

    /// `post` is `self` with one more record: that of `total_amount` kWh reported at
    /// `now`, split among the members of `self`; and with the units of that report added
    /// to the lifetime total.
    pub open spec fn generation_recorded(&self, post: &Self, now: u64, total_amount: i128) -> bool {
        let record = post.records@.last();
        &&& post.records@.len() == self.records@.len() + 1
        &&& post.records@.drop_last() == self.records@
        &&& record.id == self.records@.len() + 1
        &&& record.timestamp == now
        &&& record.total_amount == total_amount
        &&& record.shares@ == shares_for(self.members@, units_of(total_amount))
        &&& post.total_generated == self.total_generated + units_of(total_amount)
        &&& post.same_outside_generation(self)
    }

    /// Why a report of generation is refused, if it is.
    fn generation_refused(&self, signers: &Vec<Address>, total_amount: i128) -> (refusal: Option<
        DistributionError,
    >)
        ensures
            refusal == self.generation_refusal(signers@, total_amount),
    {
        let admin: Address = match self.config {
            None => {
                return Some(DistributionError::NotInitialized);
            },
            Some(config) => config.admin,
        };
        if !contains_address(signers, admin) {
            return Some(DistributionError::Unauthorized);
        }
        if !self.members_initialized {
            return Some(DistributionError::MembersNotInitialized);
        }
        if total_amount <= 0 {
            return Some(DistributionError::InvalidAmount);
        }
        None
    }

    /// The shares that a report of `total_amount` kWh is split into, for the caller to
    /// mint: `UNITS_PER_KWH` units for each kWh, to each member its percentage of them,
    /// rounded down. Nothing is lost to rounding here, since the units are a multiple of
    /// 100. Nothing changes: the caller mints the shares and tells `record_generation`
    /// how that went. `signers` are the principals that authorized this call. Where the
    /// report is not refused, the units have to fit their type.
    pub fn generation_shares(&self, signers: &Vec<Address>, total_amount: i128) -> (result: Result<
        Vec<Share>,
        DistributionError,
    >)
        requires
            self.wf(),
            self.generation_refusal(signers@, total_amount) is None ==> units_of(total_amount)
                <= i128::MAX,
        ensures
            match result {
                Ok(shares) => {
                    let units = units_of(total_amount);
                    &&& self.generation_refusal(signers@, total_amount) is None
                    &&& shares@ == shares_for(self.members@, units)
                    &&& forall|j: int| 0 <= j < shares@.len() ==> (#[trigger] shares@[j]).amount >= 0
                    &&& minted_total(shares@) <= units
                    &&& units - minted_total(shares@) < self.members@.len()
                    &&& minted_total(shares@) == units
                },
                Err(e) => self.generation_refusal(signers@, total_amount) == Some(e),
            },
    {
        match self.generation_refused(signers, total_amount) {
            Some(e) => {
                return Err(e);
            },
            None => {},
        }
        let units: i128 = total_amount * UNITS_PER_KWH;
        proof {
            assert forall|i: int| 0 <= i < self.members@.len() implies share_of(
                units as int,
                (#[trigger] self.members@[i]).percent,
            ) <= i128::MAX by {
                lemma_percent_bounded(self.members@, i);
                lemma_share_bounds(units as int, self.members@[i].percent);
            }
            lemma_minted_is_distributed(self.members@, units as int);
            lemma_rounding_bound(self.members@, units as int);
            lemma_exact_split(self.members@, units as int);
            assert forall|j: int| 0 <= j < self.members@.len() implies (#[trigger] shares_for(
                self.members@,
                units as int,
            )[j]).amount >= 0 by {
                lemma_share_bounds(units as int, self.members@[j].percent);
            }
        }
        Ok(split_among(&self.members, units))
    }

    /// Records that `total_amount` kWh were generated, and returns the number of the new
    /// record. `minted` says how minting the shares went (see `generation_shares`): if
    /// that failed, the failure is handed back and nothing is recorded. `signers` are the
    /// principals that authorized this call, `now` is the time of the call. A refused
    /// call changes nothing. Where a record is made, the new lifetime total and the
    /// record's number have to fit their types.
    pub fn record_generation(
        &mut self,
        signers: &Vec<Address>,
        now: u64,
        total_amount: i128,
        minted: Result<(), DistributionError>,
    ) -> (result: Result<u64, DistributionError>)
        requires
            old(self).wf(),
            old(self).generation_refusal(signers@, total_amount) is None && minted is Ok ==> {
                &&& old(self).total_generated + units_of(total_amount) <= i128::MAX
                &&& old(self).records@.len() < u64::MAX
            },
        ensures
            final(self).wf(),
            match old(self).generation_refusal(signers@, total_amount) {
                Some(e) => result == Err::<u64, _>(e) && *final(self) == *old(self),
                None => match minted {
                    Err(e) => result == Err::<u64, _>(e) && *final(self) == *old(self),
                    Ok(()) => {
                        let units = units_of(total_amount);
                        let record = final(self).records@.last();
                        &&& result == Ok::<u64, DistributionError>(
                            (old(self).records@.len() + 1) as u64,
                        )
                        &&& old(self).generation_recorded(final(self), now, total_amount)
                        &&& minted_total(record.shares@) <= units
                        &&& units - minted_total(record.shares@) < old(self).members@.len()
                        &&& minted_total(record.shares@) == units
                    },
                },
            },
    {
        match self.generation_refused(signers, total_amount) {
            Some(e) => {
                return Err(e);
            },
            None => {},
        }
        match minted {
            Err(e) => Err(e),
            Ok(()) => {
                proof {
                    lemma_prefix_recorded(self.records@, 0);
                }
                let shares = match self.generation_shares(signers, total_amount) {
                    Err(e) => {
                        return Err(e);
                    },
                    Ok(shares) => shares,
                };
                let units: i128 = total_amount * UNITS_PER_KWH;
                let id: u64 = (self.records.len() as u64) + 1;
                self.records.push(GenerationRecord { id, timestamp: now, total_amount, shares });
                self.total_generated = self.total_generated + units;
                assert(self.records@.drop_last() =~= old(self).records@);
                assert(record_consistent(self.records@.last()));
                Ok(id)
            },
        }
    }

    /// Whether `address` is a current member.
    pub fn is_member(&self, address: Address) -> (found: bool)
        ensures
            found == self.has_member(address),
            found == (percent_of(self.members@, address) is Some),
    {
        proof {
            lemma_percent_of_entry(self.members@, address);
        }
        self.get_member_percent(address).is_some()
    }

    /// The percentage that `address` holds, if it is a current member.
    pub fn get_member_percent(&self, address: Address) -> (percent: Option<u32>)
        ensures
            percent == percent_of(self.members@, address),
    {
        let mut i: usize = self.members.len();
        assert(self.members@.take(i as int) =~= self.members@);
        while i > 0
            invariant
                i <= self.members@.len(),
                percent_of(self.members@, address) == percent_of(
                    self.members@.take(i as int),
                    address,
                ),
            decreases i,
        {
            i -= 1;
            assert(self.members@.take(i + 1).drop_last() =~= self.members@.take(i as int));
            if self.members[i].address == address {
                return Some(self.members[i].percent);
            }
        }
        None
    }

    /// The administrator, once the ledger is initialized.
    pub fn get_admin(&self) -> (admin: Option<Address>)
        ensures
            admin == match self.config {
                Some(config) => Some(config.admin),
                None => None,
            },
    {
        match self.config {
            Some(config) => Some(config.admin),
            None => None,
        }
    }

    /// The token contract, once the ledger is initialized.
    pub fn get_token_contract(&self) -> (token: Option<Address>)
        ensures
            token == match self.config {
                Some(config) => Some(config.token_contract),
                None => None,
            },
    {
        match self.config {
            Some(config) => Some(config.token_contract),
            None => None,
        }
    }

    /// The number of distinct approvers that onboarding asks for, once the ledger is
    /// initialized.
    pub fn get_required_approvals(&self) -> (required: Option<u32>)
        ensures
            required == match self.config {
                Some(config) => Some(config.required_approvals),
                None => None,
            },
    {
        match self.config {
            Some(config) => Some(config.required_approvals),
            None => None,
        }
    }

    /// Whether a membership has been onboarded.
    pub fn are_members_initialized(&self) -> (initialized: bool)
        ensures
            initialized == self.members_initialized,
    {
        self.members_initialized
    }

    /// The token units generated over the ledger's lifetime.
    pub fn get_total_generated(&self) -> (total: i128)
        ensures
            total == self.total_generated,
    {
        self.total_generated
    }

    /// The addresses of the current members, in the order of their onboarding.
    pub fn get_member_list(&self) -> (list: Vec<Address>)
        ensures
            list@.len() == self.members@.len(),
            forall|i: int| 0 <= i < list@.len() ==> list@[i] == self.members@[i].address,
    {
        let mut list: Vec<Address> = Vec::new();
        let mut i: usize = 0;
        while i < self.members.len()
            invariant
                i <= self.members@.len(),
                list@.len() == i,
                forall|j: int| 0 <= j < i ==> list@[j] == self.members@[j].address,
            decreases self.members.len() - i,
        {
            list.push(self.members[i].address);
            i += 1;
        }
        list
    }

    /// The record with number `id`, if there is one.
    pub fn get_generation_record(&self, id: u64) -> (record: Option<&GenerationRecord>)
        requires
            self.wf(),
        ensures
            record is Some <==> 1 <= id <= self.records@.len(),
            record is Some ==> *record->Some_0 == self.records@[id - 1] && record->Some_0.id == id,
    {
        if id >= 1 && id - 1 < self.records.len() as u64 {
            Some(&self.records[(id - 1) as usize])
        } else {
            None
        }
    }

    /// Switches the privacy mode on. `signers` are the principals that authorized this
    /// call; the administrator has to be one of them.
    pub fn enable_privacy(&mut self, signers: &Vec<Address>) -> (result: Result<(), DistributionError>)
        requires
            old(self).wf(),
        ensures
            final(self).wf(),
            old(self).config is None ==> result == Err::<(), _>(DistributionError::NotInitialized),
            old(self).config is Some && !signers@.contains(old(self).config->Some_0.admin)
                ==> result == Err::<(), _>(DistributionError::Unauthorized),
            old(self).config is Some && signers@.contains(old(self).config->Some_0.admin)
                ==> result is Ok,
            result is Err ==> *final(self) == *old(self),
            result is Ok ==> final(self).privacy_enabled && final(self).config == old(self).config
                && final(self).members_initialized == old(self).members_initialized
                && final(self).members == old(self).members && final(self).total_generated
                == old(self).total_generated && final(self).records == old(self).records
                && final(self).commitments == old(self).commitments,
    {
        let admin: Address = match self.config {
            None => {
                return Err(DistributionError::NotInitialized);
            },
            Some(config) => config.admin,
        };
        if !contains_address(signers, admin) {
            return Err(DistributionError::Unauthorized);
        }
        self.privacy_enabled = true;
        Ok(())
    }

    /// Puts a member's commitment on file, in place of an earlier one. `signers` are the
    /// principals that authorized this call; `user` has to be one of them, and a member.
    pub fn record_private_consumption(
        &mut self,
        signers: &Vec<Address>,
        user: Address,
        commitment: [u8; 32],
    ) -> (result: Result<(), DistributionError>)
        requires
            old(self).wf(),
        ensures
            final(self).wf(),
            !signers@.contains(user) ==> result == Err::<(), _>(DistributionError::Unauthorized),
            signers@.contains(user) && !old(self).has_member(user) ==> result == Err::<(), _>(
                DistributionError::MembersNotInitialized,
            ),
            signers@.contains(user) && old(self).has_member(user) ==> result is Ok,
            result is Err ==> *final(self) == *old(self),
            result is Ok ==> final(self).commitments@ == old(self).commitments@.push(
                UserCommitment { user, commitment },
            ) && commitment_of(final(self).commitments@, user) == Some(commitment@)
                && final(self).config == old(self).config && final(self).members_initialized
                == old(self).members_initialized && final(self).members == old(self).members
                && final(self).total_generated == old(self).total_generated && final(self).records
                == old(self).records && final(self).privacy_enabled == old(self).privacy_enabled,
    {
        if !contains_address(signers, user) {
            return Err(DistributionError::Unauthorized);
        }
        if !self.is_member(user) {
            return Err(DistributionError::MembersNotInitialized);
        }
        self.commitments.push(UserCommitment { user, commitment });
        Ok(())
    }

    /// The commitment on file for `user`, if there is one.
    pub fn get_commitment(&self, user: Address) -> (commitment: Option<[u8; 32]>)
        ensures
            match commitment {
                Some(c) => commitment_of(self.commitments@, user) == Some(c@),
                None => commitment_of(self.commitments@, user) is None,
            },
    {
        let mut i: usize = self.commitments.len();
        assert(self.commitments@.take(i as int) =~= self.commitments@);
        while i > 0
            invariant
                i <= self.commitments@.len(),
                commitment_of(self.commitments@, user) == commitment_of(
                    self.commitments@.take(i as int),
                    user,
                ),
            decreases i,
        {
            i -= 1;
            assert(self.commitments@.take(i + 1).drop_last() =~= self.commitments@.take(i as int));
            if self.commitments[i].user == user {
                return Some(self.commitments[i].commitment);
            }
        }
        None
    }

    /// Whether the commitment on file for `user` is the commitment to `user_data`.
    /// Without a commitment on file the answer is no.
    pub fn verify_private_consumption(&self, user: Address, user_data: &Vec<u8>) -> (valid: bool)
        requires
            user_data@.len() <= MAX_HASH_INPUT,
        ensures
            valid == (commitment_of(self.commitments@, user) == Some(sha256(user_data@))),
    {
        match self.get_commitment(user) {
            Some(commitment) => verify_commitment(&commitment, user_data),
            None => false,
        }
    }

    /// The commitment that a user makes to a consumption with a secret.
    pub fn generate_commitment_helper(
        user_address_bytes: &[u8; 32],
        consumed_kwh: i128,
        secret: &[u8; 32],
    ) -> (commitment: [u8; 32])
        ensures
            commitment@ == sha256(consumption_bytes(user_address_bytes@, consumed_kwh, secret@)),
    {
        let user_data = hash_consumption_data(user_address_bytes, consumed_kwh, secret);
        generate_commitment(&user_data)
    }
}

} // verus!
