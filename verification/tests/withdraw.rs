use token_vesting::records::VestingAccount;
use token_vesting::schedule::VestingSchedule;
use token_vesting::state::LinearVesting;

fn construct_test_data() -> (VestingAccount, VestingSchedule) {
    let total_tokens = 1_000_000;
    let vesting = VestingAccount {
        total_tokens,
        withdrawn_tokens: 100_000,
        ..Default::default()
    };

    let schedule = VestingSchedule::with_tokens(total_tokens)
        .cliff(1_000_000, Some(200_000))
        .cliff(1_100_000, Some(200_000))
        .add(LinearVesting::new(1_400_000, 400_000, 3), None)
        .ending_at(2_000_000)
        .unwrap()
        .build()
        .unwrap();
    assert_eq!(schedule.vestings()[0].0, 200_000);
    assert_eq!(schedule.vestings()[1].0, 200_000);
    assert_eq!(schedule.vestings()[2].0, 400_000);
    assert_eq!(schedule.vestings()[2].1.unlock_count, 2);
    assert_eq!(schedule.vestings()[3].0, 200_000);
    assert!(schedule.last() == 2_000_000);
    assert!(schedule.is_valid());

    (vesting, schedule)
}

#[test]
fn test_withdraw_amount_before_vesting_start() {
    let (vesting, schedule) = construct_test_data();
    assert_eq!(
        vesting.calculate_available_to_withdraw_amount(&schedule, 900_000),
        0
    );
}

#[test]
fn test_withdraw_amount_after_vesting_end() {
    let (vesting, schedule) = construct_test_data();
    assert_eq!(
        vesting.calculate_available_to_withdraw_amount(&schedule, 2_100_000),
        900_000
    );
}

#[test]
fn test_withdraw_amount_before_cliff_end() {
    let (vesting, schedule) = construct_test_data();
    assert_eq!(
        vesting.calculate_available_to_withdraw_amount(&schedule, 1_050_000),
        100_000
    );
}

#[test]
fn test_withdraw_amount_after_cliff_end() {
    let (vesting, schedule) = construct_test_data();
    assert_eq!(
        vesting.calculate_available_to_withdraw_amount(&schedule, 1_150_000),
        300_000
    );
}

#[test]
fn test_withdraw_amount_after_first_period_unlock() {
    let (vesting, schedule) = construct_test_data();
    assert_eq!(
        vesting.calculate_available_to_withdraw_amount(&schedule, 1_550_000),
        500_000
    );
}

#[test]
fn test_withdraw_amount_before_last_unlock() {
    let (vesting, schedule) = construct_test_data();
    assert_eq!(
        vesting.calculate_available_to_withdraw_amount(&schedule, 1_950_000),
        700_000
    );
}

#[test]
fn test_withdraw_amount_shrinks_as_withdrawn_grows() {
    let (_, schedule) = construct_test_data();
    let mut previous = u64::MAX;
    for withdrawn in [0u64, 100_000, 300_000, 500_000, 1_000_000] {
        let vesting = VestingAccount {
            total_tokens: 1_000_000,
            withdrawn_tokens: withdrawn,
            ..Default::default()
        };
        let amount = vesting.calculate_available_to_withdraw_amount(&schedule, 1_550_000);
        assert!(amount <= previous);
        previous = amount;
    }
}

#[test]
fn test_withdraw_amount_caps_at_grant_allocation() {
    // The schedule accounts for far more than this grant holds; the grant's
    // own allocation caps the unlocked amount.
    let (_, schedule) = construct_test_data();
    let vesting = VestingAccount {
        total_tokens: 250_000,
        withdrawn_tokens: 50_000,
        ..Default::default()
    };
    assert_eq!(
        vesting.calculate_available_to_withdraw_amount(&schedule, 2_100_000),
        200_000
    );
}
