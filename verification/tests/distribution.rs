use beenergy::address::{contains_address, count_distinct, Address, AddressKind};
use beenergy::distribution::{DistributionError, EnergyDistribution};
use beenergy::membership::{paired_members, sums_to_hundred, Member};
use beenergy::shares::{split_among, Share, MAX_KWH, UNITS_PER_KWH};

fn account(n: u128) -> Address {
    Address { kind: AddressKind::Account, key_hi: 0, key_lo: n }
}

fn contract(n: u128) -> Address {
    Address { kind: AddressKind::Contract, key_hi: 0, key_lo: n }
}

fn initialized(required_approvals: u32) -> EnergyDistribution {
    let mut ledger = EnergyDistribution::new();
    ledger.initialize(&vec![account(100)], account(100), contract(200), required_approvals).unwrap();
    ledger
}

fn five_members() -> (EnergyDistribution, Vec<Address>) {
    let mut ledger = initialized(3);
    let members = vec![account(1), account(2), account(3), account(4), account(5)];
    let approvers = vec![account(1), account(2), account(3)];
    ledger
        .add_members_multisig(&approvers, &approvers, &members, &vec![20, 30, 15, 25, 10])
        .unwrap();
    (ledger, members)
}

#[test]
fn lib_test_initialize() {
    let mut ledger = EnergyDistribution::new();
    let admin = account(1);
    let token_contract = contract(2);

    let result = ledger.initialize(&vec![admin], admin, token_contract, 3);
    assert!(result.is_ok());

    assert_eq!(ledger.get_admin(), Some(admin));
    assert_eq!(ledger.get_token_contract(), Some(token_contract));
    assert_eq!(ledger.get_required_approvals(), Some(3));
    assert_eq!(ledger.are_members_initialized(), false);
}

#[test]
fn test_add_members_multisig_success() {
    let mut ledger = EnergyDistribution::new();
    let admin = account(10);
    let token_contract = contract(11);
    let investor1 = account(1);
    let investor2 = account(2);
    let investor3 = account(3);
    let investor4 = account(4);
    let investor5 = account(5);

    ledger.initialize(&vec![admin], admin, token_contract, 3).unwrap();

    let approvers = vec![investor1, investor2, investor3];
    let members = vec![investor1, investor2, investor3, investor4, investor5];
    let percents = vec![20, 30, 15, 25, 10];

    let result = ledger.add_members_multisig(&approvers, &approvers, &members, &percents);
    assert!(result.is_ok());

    assert!(ledger.is_member(investor1));
    assert!(ledger.is_member(investor2));
    assert!(ledger.is_member(investor3));
    assert!(ledger.is_member(investor4));
    assert!(ledger.is_member(investor5));

    assert_eq!(ledger.get_member_percent(investor1), Some(20));
    assert_eq!(ledger.get_member_percent(investor2), Some(30));
    assert_eq!(ledger.get_member_percent(investor3), Some(15));
    assert_eq!(ledger.get_member_percent(investor4), Some(25));
    assert_eq!(ledger.get_member_percent(investor5), Some(10));

    assert!(ledger.are_members_initialized());

    let member_list = ledger.get_member_list();
    assert_eq!(member_list.len(), 5);
}

#[test]
fn uninitialized_ledger_answers_with_defaults() {
    let ledger = EnergyDistribution::new();
    assert_eq!(ledger.get_admin(), None);
    assert_eq!(ledger.get_token_contract(), None);
    assert_eq!(ledger.get_required_approvals(), None);
    assert!(!ledger.are_members_initialized());
    assert!(!ledger.is_member(account(1)));
    assert_eq!(ledger.get_member_percent(account(1)), None);
    assert_eq!(ledger.get_member_list(), Vec::<Address>::new());
    assert_eq!(ledger.get_total_generated(), 0);
    assert!(ledger.get_generation_record(1).is_none());
}

#[test]
fn initialize_happens_once_and_needs_the_admin() {
    let mut ledger = EnergyDistribution::new();
    assert_eq!(
        ledger.initialize(&vec![account(2)], account(1), contract(2), 3),
        Err(DistributionError::Unauthorized)
    );
    assert_eq!(ledger.get_admin(), None);
    assert_eq!(ledger.initialize(&vec![account(1)], account(1), contract(2), 3), Ok(()));
    assert_eq!(
        ledger.initialize(&vec![account(5)], account(5), contract(6), 1),
        Err(DistributionError::AlreadyInitialized)
    );
    assert_eq!(ledger.get_admin(), Some(account(1)));
    assert_eq!(ledger.get_required_approvals(), Some(3));
}

#[test]
fn onboarding_needs_a_configuration() {
    let mut ledger = EnergyDistribution::new();
    let a = vec![account(1)];
    assert_eq!(
        ledger.add_members_multisig(&a, &a, &a, &vec![100]),
        Err(DistributionError::NotInitialized)
    );
}

#[test]
fn onboarding_scenario_with_five_members() {
    let (mut ledger, members) = five_members();
    let approvers = vec![account(1), account(2), account(3)];
    let total: u32 = ledger.members.iter().map(|m| m.percent).sum();
    assert_eq!(total, 100);

    let result =
        ledger.add_members_multisig(&approvers, &approvers, &members, &vec![20, 30, 15, 25, 9]);
    assert_eq!(result, Err(DistributionError::PercentsMustSumTo100));
    assert_eq!(
        ledger.members,
        vec![
            Member { address: account(1), percent: 20 },
            Member { address: account(2), percent: 30 },
            Member { address: account(3), percent: 15 },
            Member { address: account(4), percent: 25 },
            Member { address: account(5), percent: 10 },
        ]
    );
    assert_eq!(ledger.get_member_percent(account(5)), Some(10));
    assert!(ledger.are_members_initialized());
}

#[test]
fn onboarding_counts_each_approver_once() {
    let mut ledger = initialized(3);
    let members = vec![account(1), account(2)];
    let percents = vec![60, 40];
    let twice = vec![account(1), account(2), account(1), account(2)];
    assert_eq!(count_distinct(&twice), 2);
    assert_eq!(
        ledger.add_members_multisig(&twice, &twice, &members, &percents),
        Err(DistributionError::NotEnoughApprovers)
    );
    let few = vec![account(1), account(2)];
    assert_eq!(
        ledger.add_members_multisig(&few, &few, &members, &percents),
        Err(DistributionError::NotEnoughApprovers)
    );
    assert!(!ledger.are_members_initialized());
    let enough = vec![account(1), account(2), account(1), account(3)];
    assert_eq!(count_distinct(&enough), 3);
    assert_eq!(ledger.add_members_multisig(&enough, &enough, &members, &percents), Ok(()));
}

#[test]
fn onboarding_needs_every_approver_to_sign() {
    let mut ledger = initialized(2);
    let approvers = vec![account(1), account(2)];
    let members = vec![account(1), account(2)];
    assert_eq!(
        ledger.add_members_multisig(&vec![account(1)], &approvers, &members, &vec![50, 50]),
        Err(DistributionError::Unauthorized)
    );
    assert_eq!(
        ledger.add_members_multisig(&Vec::new(), &approvers, &members, &vec![50, 50]),
        Err(DistributionError::Unauthorized)
    );
    assert!(!ledger.are_members_initialized());
    let signers = vec![account(7), account(2), account(1)];
    assert_eq!(
        ledger.add_members_multisig(&signers, &approvers, &members, &vec![50, 50]),
        Ok(())
    );
}

#[test]
fn onboarding_checks_lengths_before_the_sum() {
    let mut ledger = initialized(1);
    let a = vec![account(1)];
    assert_eq!(
        ledger.add_members_multisig(&a, &a, &vec![account(1), account(2)], &vec![100]),
        Err(DistributionError::MemberPercentMismatch)
    );
    assert_eq!(
        ledger.add_members_multisig(&a, &a, &vec![account(1)], &vec![60, 40]),
        Err(DistributionError::MemberPercentMismatch)
    );
    assert_eq!(
        ledger.add_members_multisig(&a, &a, &vec![account(1)], &vec![99]),
        Err(DistributionError::PercentsMustSumTo100)
    );
    assert_eq!(
        ledger.add_members_multisig(&a, &a, &Vec::new(), &Vec::new()),
        Err(DistributionError::PercentsMustSumTo100)
    );
    assert!(!ledger.are_members_initialized());
    assert_eq!(ledger.get_member_list().len(), 0);
}

#[test]
fn onboarding_sums_without_wrapping() {
    let mut ledger = initialized(1);
    let a = vec![account(1)];
    let members = vec![account(1), account(2), account(3)];
    assert_eq!(
        ledger.add_members_multisig(&a, &a, &members, &vec![u32::MAX, 1, 100]),
        Err(DistributionError::PercentsMustSumTo100)
    );
    assert_eq!(
        ledger.add_members_multisig(&a, &a, &members, &vec![u32::MAX, u32::MAX, 102]),
        Err(DistributionError::PercentsMustSumTo100)
    );
    assert!(!sums_to_hundred(&vec![u32::MAX, 1, 100]));
    assert!(!sums_to_hundred(&vec![50, 51]));
    assert!(!sums_to_hundred(&vec![]));
    assert!(sums_to_hundred(&vec![0, 100, 0]));
    assert!(sums_to_hundred(&vec![1; 100]));
}

#[test]
fn second_onboarding_replaces_the_first() {
    let (mut ledger, _) = five_members();
    let approvers = vec![account(1), account(2), account(3)];
    let members = vec![account(8), account(1)];
    assert_eq!(
        ledger.add_members_multisig(&approvers, &approvers, &members, &vec![70, 30]),
        Ok(())
    );
    assert_eq!(ledger.get_member_list(), members);
    assert_eq!(ledger.get_member_percent(account(8)), Some(70));
    assert_eq!(ledger.get_member_percent(account(1)), Some(30));
    assert_eq!(ledger.get_member_percent(account(2)), None);
    assert!(!ledger.is_member(account(5)));
    assert_eq!(paired_members(&members, &vec![70, 30]), ledger.members);
}

#[test]
fn an_address_written_twice_reports_its_last_entry() {
    let mut ledger = initialized(1);
    let a = vec![account(1)];
    let members = vec![account(1), account(2), account(1)];
    assert_eq!(ledger.add_members_multisig(&a, &a, &members, &vec![40, 35, 25]), Ok(()));
    assert_eq!(ledger.get_member_percent(account(1)), Some(25));
    assert_eq!(ledger.get_member_percent(account(2)), Some(35));
    assert_eq!(ledger.get_member_list(), members);
}

#[test]
fn addresses_differ_by_kind_and_by_either_half() {
    let list = vec![account(1), Address { kind: AddressKind::Account, key_hi: 1, key_lo: 0 }];
    assert!(contains_address(&list, account(1)));
    assert!(!contains_address(&list, contract(1)));
    assert!(!contains_address(&list, account(0)));
    assert!(contains_address(&list, Address { kind: AddressKind::Account, key_hi: 1, key_lo: 0 }));
    assert_eq!(count_distinct(&Vec::new()), 0);
    assert_eq!(count_distinct(&vec![account(1), contract(1), account(1)]), 2);
}

#[test]
fn generation_for_a_single_owner() {
    let mut ledger = initialized(1);
    let owner = account(1);
    let admin = vec![account(100)];
    ledger.add_members_multisig(&vec![owner], &vec![owner], &vec![owner], &vec![100]).unwrap();

    assert_eq!(
        ledger.generation_shares(&admin, 100),
        Ok(vec![Share { member: owner, amount: 1_000_000_000 }])
    );
    assert!(ledger.records.is_empty());
    assert_eq!(ledger.get_total_generated(), 0);
    assert_eq!(ledger.record_generation(&admin, 1_700_000_000, 100, Ok(())), Ok(1));
    let record = ledger.get_generation_record(1).unwrap();
    assert_eq!(record.id, 1);
    assert_eq!(record.timestamp, 1_700_000_000);
    assert_eq!(record.total_amount, 100);
    assert_eq!(record.shares, vec![Share { member: owner, amount: 1_000_000_000 }]);
    assert_eq!(record.shares[0].amount, 100 * 10i128.pow(7));
    assert_eq!(ledger.get_total_generated(), 1_000_000_000);
}

#[test]
fn generation_is_split_by_percent() {
    let (mut ledger, members) = five_members();
    let admin = vec![account(100)];
    assert_eq!(UNITS_PER_KWH, 10_000_000);
    assert_eq!(ledger.record_generation(&admin, 5, 1, Ok(())), Ok(1));
    assert_eq!(ledger.record_generation(&admin, 6, 3, Ok(())), Ok(2));
    let first = ledger.get_generation_record(1).unwrap();
    let amounts: Vec<i128> = first.shares.iter().map(|s| s.amount).collect();
    assert_eq!(amounts, vec![2_000_000, 3_000_000, 1_500_000, 2_500_000, 1_000_000]);
    let to: Vec<Address> = first.shares.iter().map(|s| s.member).collect();
    assert_eq!(to, members);
    let second = ledger.get_generation_record(2).unwrap();
    let total: i128 = second.shares.iter().map(|s| s.amount).sum();
    assert_eq!(total, 30_000_000);
    assert_eq!(second.timestamp, 6);
    assert_eq!(ledger.get_total_generated(), 40_000_000);
    assert!(ledger.get_generation_record(0).is_none());
    assert!(ledger.get_generation_record(3).is_none());
}

#[test]
fn generation_is_refused_in_order() {
    let mut ledger = EnergyDistribution::new();
    let admin = vec![account(100)];
    assert_eq!(ledger.record_generation(&admin, 0, 5, Ok(())), Err(DistributionError::NotInitialized));
    ledger.initialize(&admin, account(100), contract(200), 1).unwrap();
    assert_eq!(
        ledger.record_generation(&vec![account(1)], 0, 5, Ok(())),
        Err(DistributionError::Unauthorized)
    );
    assert_eq!(
        ledger.record_generation(&admin, 0, 5, Ok(())),
        Err(DistributionError::MembersNotInitialized)
    );
    assert_eq!(
        ledger.record_generation(&admin, 0, 0, Ok(())),
        Err(DistributionError::MembersNotInitialized)
    );
    let owner = vec![account(1)];
    ledger.add_members_multisig(&owner, &owner, &owner, &vec![100]).unwrap();
    assert_eq!(ledger.record_generation(&admin, 0, 0, Ok(())), Err(DistributionError::InvalidAmount));
    assert_eq!(ledger.record_generation(&admin, 0, -7, Ok(())), Err(DistributionError::InvalidAmount));
    assert_eq!(
        ledger.record_generation(&owner, 0, 5, Ok(())),
        Err(DistributionError::Unauthorized)
    );
    assert_eq!(ledger.get_total_generated(), 0);
    assert!(ledger.records.is_empty());
    assert_eq!(ledger.record_generation(&admin, 0, 5, Ok(())), Ok(1));
}

#[test]
fn shares_round_down_and_stay_within_the_bound() {
    let members = vec![
        Member { address: account(1), percent: 33 },
        Member { address: account(2), percent: 33 },
        Member { address: account(3), percent: 34 },
    ];
    let shares = split_among(&members, 10);
    let amounts: Vec<i128> = shares.iter().map(|s| s.amount).collect();
    assert_eq!(amounts, vec![3, 3, 3]);
    for total in [0i128, 1, 2, 99, 100, 101, 12_345, 999_999_999] {
        let minted: i128 = split_among(&members, total).iter().map(|s| s.amount).sum();
        assert!(minted <= total);
        assert!(total - minted < 3);
    }
    let shares = split_among(&members, 101);
    let amounts: Vec<i128> = shares.iter().map(|s| s.amount).collect();
    assert_eq!(amounts, vec![33, 33, 34]);
}

#[test]
fn the_largest_generation_that_fits() {
    let mut ledger = initialized(1);
    let owner = vec![account(1)];
    ledger.add_members_multisig(&owner, &owner, &vec![account(1), account(2)], &vec![1, 99]).unwrap();
    let largest = i128::MAX / UNITS_PER_KWH;
    assert_eq!(largest, MAX_KWH);
    assert_eq!(ledger.record_generation(&vec![account(100)], 0, largest, Ok(())), Ok(1));
    let record = ledger.get_generation_record(1).unwrap();
    assert_eq!(record.shares[0].amount, 1_701_411_834_604_692_317_316_873_037_158_800_000);
    assert_eq!(record.shares[1].amount, 168_439_771_625_864_539_414_370_430_678_721_200_000);
    assert_eq!(record.shares[0].amount + record.shares[1].amount, largest * UNITS_PER_KWH);
    assert_eq!(ledger.get_total_generated(), largest * UNITS_PER_KWH);
    assert!(ledger.is_well_formed());
}

#[test]
fn the_largest_amount_is_split_without_wrapping() {
    let members = vec![
        Member { address: account(1), percent: 33 },
        Member { address: account(2), percent: 33 },
        Member { address: account(3), percent: 34 },
    ];
    let amounts: Vec<i128> = split_among(&members, i128::MAX).iter().map(|s| s.amount).collect();
    assert_eq!(
        amounts,
        vec![
            56_146_590_541_954_846_471_456_810_226_241_754_889,
            56_146_590_541_954_846_471_456_810_226_241_754_889,
            57_848_002_376_559_538_788_773_683_263_400_595_947,
        ]
    );
    let minted: i128 = amounts.iter().sum();
    assert_eq!(i128::MAX - minted, 2);
    let whole = vec![Member { address: account(1), percent: 100 }];
    assert_eq!(split_among(&whole, i128::MAX)[0].amount, i128::MAX);
    let none = vec![Member { address: account(1), percent: 0 }];
    assert_eq!(split_among(&none, i128::MAX)[0].amount, 0);
    // A percentage above 100 whose share still fits.
    let double = vec![Member { address: account(1), percent: 250 }];
    assert_eq!(split_among(&double, 1_001)[0].amount, 2_502);
}

#[test]
fn a_failed_minting_records_nothing() {
    let (mut ledger, members) = five_members();
    let admin = vec![account(100)];
    let shares = ledger.generation_shares(&admin, 2).unwrap();
    let to: Vec<Address> = shares.iter().map(|s| s.member).collect();
    assert_eq!(to, members);
    let amounts: Vec<i128> = shares.iter().map(|s| s.amount).collect();
    assert_eq!(amounts, vec![4_000_000, 6_000_000, 3_000_000, 5_000_000, 2_000_000]);
    assert_eq!(
        ledger.record_generation(&admin, 9, 2, Err(DistributionError::Unauthorized)),
        Err(DistributionError::Unauthorized)
    );
    assert!(ledger.records.is_empty());
    assert_eq!(ledger.get_total_generated(), 0);
    assert_eq!(ledger.record_generation(&admin, 9, 2, Ok(())), Ok(1));
    assert_eq!(ledger.get_generation_record(1).unwrap().shares, shares);
    assert_eq!(ledger.get_total_generated(), 20_000_000);
    // What stands against the report itself comes before what the caller reports.
    assert_eq!(
        ledger.record_generation(&admin, 9, 0, Err(DistributionError::Unauthorized)),
        Err(DistributionError::InvalidAmount)
    );
    assert_eq!(
        ledger.generation_shares(&vec![account(1)], 2),
        Err(DistributionError::Unauthorized)
    );
    assert_eq!(ledger.generation_shares(&admin, -2), Err(DistributionError::InvalidAmount));
}
