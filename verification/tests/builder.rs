use token_vesting::builder::{ScheduleBuilder, ScheduleBuilderError};
use token_vesting::schedule::{VestingSchedule, MAX_VESTINGS};
use token_vesting::state::LinearVesting;

#[test]
fn test_builder_success() {
    let cliff = 20_000;
    let offseted_by = 30_000;
    let standalone = 200_000;

    let schedule = VestingSchedule::with_tokens(1_000_000)
        .cliff(cliff, Some(100_000))
        .offseted_by(
            offseted_by,
            LinearVesting::without_start(10_000, 3),
            Some(100_000),
        )
        .map(|x| x.offseted(LinearVesting::without_start(20_000, 5), Some(100_000)))
        .and_then(|x| match x {
            Err(e) => Err(e),
            Ok(x) => Ok(x.add(LinearVesting::new(standalone, 10_000, 2), None)),
        })
        .and_then(|x| x.build());
    assert!(schedule.is_ok());

    let schedule = schedule.unwrap();
    assert_eq!(schedule.total_tokens(), 1_000_000);
    assert_eq!(
        &schedule.vestings()[..],
        &[
            (100_000, LinearVesting::cliff(cliff)),
            (100_000, LinearVesting::new(cliff + offseted_by, 10_000, 3)),
            (
                100_000,
                LinearVesting::new(cliff + offseted_by + 10_000 * (3 - 1) + 20_000, 20_000, 5)
            ),
            (700_000, LinearVesting::new(standalone, 10_000, 2)),
        ]
    )
}

#[test]
fn test_builder_failure_offset() {
    let schedule = VestingSchedule::with_tokens(1_000_000).offseted_by(
        10_000,
        LinearVesting::without_start(10_000, 3),
        None,
    );
    assert_eq!(schedule, Err(ScheduleBuilderError::EmptyBuilder))
}

#[test]
fn test_builder_failure_remaining_tokens() {
    let schedule = VestingSchedule::with_tokens(1_000_000)
        .cliff(10_000, Some(100_000))
        .build();
    assert_eq!(
        schedule,
        Err(ScheduleBuilderError::InvalidTokenAmountUsed((
            1_000_000, 100_000
        )))
    )
}

#[test]
fn test_builder_failure_unsorted_vestings() {
    let schedule = VestingSchedule::with_tokens(1_000_000)
        .add(LinearVesting::new(10_000, 10_000, 3), Some(100_000))
        .add(LinearVesting::new(20_000, 10_000, 3), None)
        .build();
    assert_eq!(schedule, Err(ScheduleBuilderError::VestingsNotSorted))
}

#[test]
fn test_builder_failure_zero_token() {
    let schedule = VestingSchedule::with_tokens(1_000_000)
        .add(LinearVesting::new(10_000, 10_000, 3), None)
        .add(LinearVesting::new(50_000, 10_000, 3), None)
        .build();
    assert_eq!(schedule, Err(ScheduleBuilderError::ZeroTokens))
}

#[test]
fn test_builder_failure_too_many_vestings() {
    let mut builder = VestingSchedule::with_tokens(1_000_000);
    for i in 0..MAX_VESTINGS {
        builder = builder.cliff(i as u64 * 100, Some(100));
    }
    builder = builder
        .offseted_by(100, LinearVesting::without_start(0, 1), None)
        .unwrap();
    let schedule = builder.build();
    assert_eq!(schedule, Err(ScheduleBuilderError::TooManyVestings))
}

#[test]
fn test_builder_failure_invalid_unlock_to_big() {
    // An initial unlock as large as the distributed amount is rejected; the
    // empty time interval of this call is rejected first.
    let schedule = VestingSchedule::with_tokens(1_000_000)
        .legacy(10_000, 10_000, 10_000, 10_000, 10_000, Some(10_000));
    assert_eq!(schedule, Err(ScheduleBuilderError::InvalidTimeInterval));
    let schedule = VestingSchedule::with_tokens(1_000_000)
        .legacy(10_000, 60_000, 10_000, 10_000, 10_000, Some(10_000));
    assert_eq!(schedule, Err(ScheduleBuilderError::InitialUnlockTooBig))
}

#[test]
fn test_builder_failure_end_time_incorrect() {
    let schedule = VestingSchedule::with_tokens(1_000_000)
        .legacy(10_000, 1000, 10_000, 10_000, 100_000, Some(10_000));
    assert_eq!(schedule, Err(ScheduleBuilderError::InvalidTimeInterval))
}

#[test]
fn test_builder_failure_with_cliff() {
    let schedule = VestingSchedule::with_tokens(1_000_000)
        .legacy(10_000, 1000, 100_000, 100_000, 10_000, Some(10_000));
    assert_eq!(schedule, Err(ScheduleBuilderError::InvalidTimeInterval))
}

#[test]
fn test_legacy_builds_cliff_and_ramp() {
    let schedule = VestingSchedule::with_tokens(1_000_000)
        .legacy(10_000, 60_000, 10_000, 10_000, 100_000, None)
        .unwrap()
        .build()
        .unwrap();
    // An initial cliff, the elapsed-steps cliff bucket, and a 5-step ramp.
    assert_eq!(
        &schedule.vestings()[..],
        &[
            (100_000, LinearVesting::cliff(10_000)),
            (150_000, LinearVesting::cliff(10_000)),
            (750_000, LinearVesting::new(10_000, 10_000, 5)),
        ]
    );
    assert_eq!(schedule.available(9_999), 0);
    assert_eq!(schedule.available(10_000), 400_000);
    assert_eq!(schedule.available(20_000), 550_000);
    assert_eq!(schedule.available(50_000), 1_000_000);
    assert_eq!(schedule.available(u64::MAX), 1_000_000);
}

#[test]
fn test_legacy_clips_ramp_to_end_time() {
    let schedule = VestingSchedule::with_tokens(1_000_000)
        .legacy(5_000, 47_000, 10_000, 12_000, 0, None)
        .unwrap()
        .build()
        .unwrap();
    // The cliff sits off the unlock grid, so the ramp starts at the next
    // boundary (15_000); the span is not a whole number of periods, so the
    // ramp would overshoot the end time and is clipped: a shortened ramp
    // plus a final cliff at exactly the end.
    assert_eq!(
        &schedule.vestings()[..],
        &[
            (166_666, LinearVesting::cliff(12_000)),
            (666_667, LinearVesting::new(15_000, 10_000, 4)),
            (166_667, LinearVesting::cliff(47_000)),
        ]
    );
    assert_eq!(schedule.last(), 47_000);
    assert_eq!(schedule.available(46_999), 833_333);
    assert_eq!(schedule.available(47_000), 1_000_000);
}

#[test]
fn test_legacy_mid_interval_cliff_buckets_elapsed_steps() {
    // Three of the six steps have elapsed by the cliff, so half of the
    // remaining tokens unlock there in one bucket and the ramp carries the
    // other three steps from the cliff onward.
    let schedule = VestingSchedule::with_tokens(1_000_000)
        .legacy(10_000, 60_000, 10_000, 30_000, 100_000, None)
        .unwrap()
        .build()
        .unwrap();
    assert_eq!(
        &schedule.vestings()[..],
        &[
            (100_000, LinearVesting::cliff(10_000)),
            (450_000, LinearVesting::cliff(30_000)),
            (450_000, LinearVesting::new(30_000, 10_000, 3)),
        ]
    );
    assert_eq!(schedule.available(29_999), 100_000);
    assert_eq!(schedule.available(30_000), 700_000);
    assert_eq!(schedule.available(40_000), 850_000);
    assert_eq!(schedule.available(50_000), 1_000_000);
    assert_eq!(schedule.available(u64::MAX), 1_000_000);
}

#[test]
fn test_legacy_ramp_starts_on_unlock_grid() {
    // The unlock grid is anchored at the start time; with a cliff off the
    // grid the ramp begins at the next boundary of that grid, not at a
    // multiple of the period.
    let schedule = VestingSchedule::with_tokens(1_000_000)
        .legacy(10_001, 50_001, 10_000, 15_000, 0, None)
        .unwrap()
        .build()
        .unwrap();
    assert_eq!(
        &schedule.vestings()[..],
        &[
            (200_000, LinearVesting::cliff(15_000)),
            (800_000, LinearVesting::new(20_001, 10_000, 4)),
        ]
    );
    assert_eq!(schedule.available(20_000), 200_000);
    assert_eq!(schedule.available(20_001), 400_000);
    assert_eq!(schedule.available(50_001), 1_000_000);
}

#[test]
fn test_is_valid_rejects_unrepresentable_unlock_time() {
    // A tranche whose final unlock time does not fit in a 64-bit time fails
    // the validity predicate.
    let schedule = VestingSchedule::new(
        100,
        vec![(100, LinearVesting::new(0, u64::MAX, 3))],
    );
    assert!(!schedule.is_valid());
    let schedule = VestingSchedule::new(100, vec![(100, LinearVesting::new(0, u64::MAX, 1))]);
    assert!(schedule.is_valid());
}

#[test]
fn test_schedule_available_tokens() {
    let total_tokens = 1_000_000;
    let cliff1 = total_tokens * 6 / 100;
    let cliff2 = total_tokens * 9 / 100;

    const MINUTE: u64 = 60;
    const HOUR: u64 = 60 * MINUTE;
    const DAY: u64 = 24 * HOUR;
    const WEEK: u64 = 7 * DAY;
    const MONTH: u64 = 4 * WEEK;

    let now = 1_000_000;
    let tge = now + 20 * DAY;
    let listing = tge + 10 * DAY;

    let schedule = VestingSchedule::with_tokens(1_000_000)
        .cliff(listing, Some(cliff1))
        .cliff(listing + 6 * MONTH, Some(cliff2))
        .offseted_by(6 * MONTH, LinearVesting::without_start(2 * MONTH, 6), None)
        .and_then(|x| x.build());
    assert!(schedule.is_ok());
    let schedule = schedule.unwrap();

    assert_eq!(schedule.available(u64::MIN), 0);

    assert_eq!(schedule.available(listing - 1 * MONTH), 0);
    assert_eq!(schedule.available(listing - 1 * DAY), 0);
    assert_eq!(schedule.available(listing - 1), 0);

    assert_eq!(schedule.available(listing), cliff1);
    assert_eq!(schedule.available(listing + 1), cliff1);
    assert_eq!(schedule.available(listing + 1 * WEEK), cliff1);
    assert_eq!(schedule.available(listing + 1 * WEEK + 1 * DAY), cliff1);

    assert_eq!(schedule.available(listing + 6 * MONTH), cliff1 + cliff2);
    assert_eq!(
        schedule.available(listing + 6 * MONTH + 1 * DAY),
        cliff1 + cliff2
    );
    assert_eq!(
        schedule.available(listing + 6 * MONTH + 1 * WEEK),
        cliff1 + cliff2
    );

    assert_eq!(
        schedule.available(listing + 6 * MONTH + 6 * MONTH),
        cliff1 + cliff2 + (total_tokens - cliff1 - cliff2) / 6
    );
    assert_eq!(
        schedule.available(listing + 6 * MONTH + 6 * MONTH + 1 * MONTH),
        cliff1 + cliff2 + (total_tokens - cliff1 - cliff2) / 6
    );

    assert_eq!(
        schedule.available(listing + 6 * MONTH + 6 * MONTH + 2 * MONTH),
        cliff1 + cliff2 + (total_tokens - cliff1 - cliff2) * 2 / 6
    );
    assert_eq!(
        schedule.available(listing + 6 * MONTH + 6 * MONTH + 4 * MONTH),
        cliff1 + cliff2 + (total_tokens - cliff1 - cliff2) * 3 / 6
    );
    assert_eq!(
        schedule.available(listing + 6 * MONTH + 6 * MONTH + 6 * MONTH),
        cliff1 + cliff2 + (total_tokens - cliff1 - cliff2) * 4 / 6
    );
    assert_eq!(
        schedule.available(listing + 6 * MONTH + 6 * MONTH + 8 * MONTH),
        cliff1 + cliff2 + (total_tokens - cliff1 - cliff2) * 5 / 6
    );
    assert_eq!(
        schedule.available(listing + 6 * MONTH + 6 * MONTH + 10 * MONTH),
        total_tokens
    );

    assert_eq!(schedule.available(u64::MAX), total_tokens);
}

#[test]
fn test_build_conserves_tokens() {
    let schedule = VestingSchedule::with_tokens(500_000)
        .cliff(1_000, Some(200_000))
        .add(LinearVesting::new(5_000, 1_000, 4), None)
        .build()
        .unwrap();
    let sum: u64 = schedule.vestings().iter().map(|pair| pair.0).sum();
    assert_eq!(sum, schedule.token_count());
    assert_eq!(sum, 500_000);
}

#[test]
fn test_available_is_monotonic_in_time() {
    let schedule = VestingSchedule::with_tokens(900_000)
        .cliff(10_000, Some(300_000))
        .add(LinearVesting::new(50_000, 7_000, 9), None)
        .build()
        .unwrap();
    let mut previous = 0;
    for step in 0..40 {
        let t = step * 4_000;
        let now = schedule.available(t);
        assert!(now >= previous);
        previous = now;
    }
    assert_eq!(schedule.available(u64::MAX), 900_000);
}

#[test]
fn test_empty_builder_with_zero_tokens_builds() {
    let schedule = ScheduleBuilder::with_tokens(0).build().unwrap();
    assert_eq!(schedule.token_count(), 0);
    assert!(schedule.is_valid());
    assert_eq!(schedule.available(0), 0);
    assert_eq!(schedule.available(u64::MAX), 0);
}

#[test]
fn test_ending_at_truncates_inside_last_tranche() {
    let builder = VestingSchedule::with_tokens(1_000_000)
        .cliff(100_000, Some(400_000))
        .add(LinearVesting::new(200_000, 100_000, 6), None)
        .ending_at(400_000)
        .unwrap();
    let schedule = builder.build().unwrap();
    // The 6-step ramp is cut down to 3 completed steps plus a final cliff at
    // exactly the requested end; the token total is preserved.
    assert_eq!(schedule.last(), 400_000);
    let sum: u64 = schedule.vestings().iter().map(|pair| pair.0).sum();
    assert_eq!(sum, 1_000_000);
    assert_eq!(schedule.available(u64::MAX), 1_000_000);
    assert_eq!(schedule.available(400_000), 1_000_000);
    assert_eq!(schedule.available(399_999), 600_000);
}

#[test]
fn test_ending_at_after_last_tranche_is_a_no_op() {
    let builder = VestingSchedule::with_tokens(600_000)
        .add(LinearVesting::new(10_000, 5_000, 3), None)
        .ending_at(1_000_000)
        .unwrap();
    let schedule = builder.build().unwrap();
    assert_eq!(&schedule.vestings()[..], &[(600_000, LinearVesting::new(10_000, 5_000, 3))]);
}

#[test]
fn test_ending_at_empty_builder_fails() {
    let result = VestingSchedule::with_tokens(100).ending_at(5_000);
    assert_eq!(result, Err(ScheduleBuilderError::EmptyBuilder));
}
