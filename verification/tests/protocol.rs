use token_vesting::protocol::{
    change_vesting_type_schedule, close_vesting_account, create_multisig, create_vesting_account,
    create_vesting_type, sign_devesting, validate_signers, withdraw_excessive_from_pool,
    withdraw_from_vesting,
};
use token_vesting::records::{
    AccountId, CurrentSigners, ProcessError, RequiredSigners, VestingAccount, VestingError,
    VestingTypeAccount, MAX_SIGNERS,
};
use token_vesting::schedule::VestingSchedule;
use token_vesting::state::LinearVesting;

fn id(n: u64) -> AccountId {
    AccountId { w0: n, w1: 0, w2: 0, w3: 0 }
}

fn sample_schedule(total: u64) -> VestingSchedule {
    VestingSchedule::with_tokens(total)
        .cliff(1_000, Some(total / 2))
        .add(LinearVesting::new(2_000, 500, 3), None)
        .build()
        .unwrap()
}

fn sample_required() -> RequiredSigners {
    let mut signers = vec![AccountId::default(); MAX_SIGNERS];
    signers[0] = id(1);
    signers[1] = id(2);
    signers[2] = id(3);
    RequiredSigners {
        is_initialized: true,
        require_signers: signers,
        require_number: 2,
        all_number: 3,
        vesting_type_account: id(100),
    }
}

fn sample_current() -> CurrentSigners {
    CurrentSigners {
        is_initialized: true,
        current_signers: vec![false; MAX_SIGNERS],
        vesting_account: id(200),
    }
}

#[test]
fn test_validate_signers_counts_true_slots() {
    assert!(validate_signers(&[true, false, true], 2));
    assert!(!validate_signers(&[true, false, true], 3));
    assert!(validate_signers(&[], 0));
    assert!(!validate_signers(&[false, false], 1));
}

#[test]
fn test_sign_devesting_records_first_approval() {
    let required = sample_required();
    let current = sample_current();
    let (next, closing) =
        sign_devesting(&required, &current, id(1), true, id(100), id(200)).unwrap();
    assert!(!closing);
    assert!(next.current_signers[0]);
    assert!(!next.current_signers[1]);
    assert!(next.is_initialized);
    assert_eq!(next.vesting_account, id(200));
}

#[test]
fn test_sign_devesting_second_signature_meets_quorum() {
    let required = sample_required();
    let current = sample_current();
    let (next, closing) =
        sign_devesting(&required, &current, id(1), true, id(100), id(200)).unwrap();
    assert!(!closing);
    let (last, closing) =
        sign_devesting(&required, &next, id(2), true, id(100), id(200)).unwrap();
    assert!(closing);
    assert!(last.current_signers[0] && last.current_signers[1]);
}

#[test]
fn test_sign_devesting_twice_is_rejected() {
    let required = sample_required();
    let current = sample_current();
    let (next, _) = sign_devesting(&required, &current, id(1), true, id(100), id(200)).unwrap();
    let again = sign_devesting(&required, &next, id(1), true, id(100), id(200));
    assert_eq!(
        again,
        Err(ProcessError::Vesting(VestingError::DevestingAlreadySigned))
    );
    // A rejected approval leaves the bitmap exactly as it was.
    assert!(next.current_signers[0]);
    assert_eq!(next.current_signers.iter().filter(|signed| **signed).count(), 1);
}

#[test]
fn test_sign_devesting_unknown_approver() {
    let required = sample_required();
    let current = sample_current();
    let result = sign_devesting(&required, &current, id(9), true, id(100), id(200));
    assert_eq!(result, Err(ProcessError::MissingRequiredSignature));
}

#[test]
fn test_sign_devesting_without_authority() {
    let required = sample_required();
    let current = sample_current();
    let result = sign_devesting(&required, &current, id(1), false, id(100), id(200));
    assert_eq!(result, Err(ProcessError::MissingRequiredSignature));
}

#[test]
fn test_sign_devesting_uninitialized_records() {
    let mut required = sample_required();
    required.is_initialized = false;
    let current = sample_current();
    let result = sign_devesting(&required, &current, id(1), true, id(100), id(200));
    assert_eq!(result, Err(ProcessError::UninitializedAccount));

    let required = sample_required();
    let mut current = sample_current();
    current.is_initialized = false;
    let result = sign_devesting(&required, &current, id(1), true, id(100), id(200));
    assert_eq!(result, Err(ProcessError::UninitializedAccount));
}

#[test]
fn test_sign_devesting_wrong_records() {
    let required = sample_required();
    let current = sample_current();
    let result = sign_devesting(&required, &current, id(1), true, id(999), id(200));
    assert_eq!(result, Err(ProcessError::InvalidAccountData));
    let result = sign_devesting(&required, &current, id(1), true, id(100), id(999));
    assert_eq!(result, Err(ProcessError::InvalidAccountData));
}

#[test]
fn test_close_vesting_account_returns_unvested_remainder() {
    let mut vesting_type = VestingTypeAccount {
        is_initialized: true,
        vesting_schedule: sample_schedule(2_000_000),
        locked_tokens_amount: 1_500_000,
        administrator: id(7),
        token_pool: id(8),
    };
    let mut vesting = VestingAccount {
        is_initialized: true,
        total_tokens: 1_000_000,
        withdrawn_tokens: 100_000,
        token_account: id(9),
        vesting_type_account: id(100),
    };
    close_vesting_account(&mut vesting_type, id(100), &mut vesting).unwrap();
    assert_eq!(vesting_type.locked_tokens_amount, 600_000);
    assert_eq!(vesting, VestingAccount::default());
    assert!(vesting_type.is_initialized);
}

#[test]
fn test_close_vesting_account_checks_ownership() {
    let mut vesting_type = VestingTypeAccount {
        is_initialized: true,
        vesting_schedule: sample_schedule(100),
        locked_tokens_amount: 50,
        administrator: id(7),
        token_pool: id(8),
    };
    let mut vesting = VestingAccount {
        is_initialized: true,
        total_tokens: 50,
        withdrawn_tokens: 0,
        token_account: id(9),
        vesting_type_account: id(101),
    };
    let result = close_vesting_account(&mut vesting_type, id(100), &mut vesting);
    assert_eq!(result, Err(ProcessError::InvalidAccountData));
    assert_eq!(vesting_type.locked_tokens_amount, 50);
    assert!(vesting.is_initialized);
}

#[test]
fn test_create_multisig_copies_configuration() {
    let required = RequiredSigners::default();
    let vesting_type = VestingTypeAccount {
        is_initialized: true,
        vesting_schedule: sample_schedule(100),
        locked_tokens_amount: 0,
        administrator: id(7),
        token_pool: id(8),
    };
    let mut signers = vec![AccountId::default(); MAX_SIGNERS];
    signers[0] = id(21);
    signers[1] = id(22);
    let out = create_multisig(
        &required,
        &vesting_type,
        id(100),
        id(7),
        true,
        2,
        2,
        signers.clone(),
    )
    .unwrap();
    assert!(out.is_initialized);
    assert_eq!(out.require_signers, signers);
    assert_eq!(out.require_number, 2);
    assert_eq!(out.all_number, 2);
    assert_eq!(out.vesting_type_account, id(100));
    // The policy may be derived only once: a second attempt against the
    // initialized record is rejected.
    let again = create_multisig(
        &out,
        &vesting_type,
        id(100),
        id(7),
        true,
        2,
        2,
        signers,
    );
    assert_eq!(
        again,
        Err(ProcessError::Vesting(VestingError::AlreadyInitialized))
    );
}

#[test]
fn test_create_multisig_rejects_non_administrator() {
    let required = RequiredSigners::default();
    let vesting_type = VestingTypeAccount {
        is_initialized: true,
        vesting_schedule: sample_schedule(100),
        locked_tokens_amount: 0,
        administrator: id(7),
        token_pool: id(8),
    };
    let result = create_multisig(
        &required,
        &vesting_type,
        id(100),
        id(6),
        true,
        2,
        2,
        vec![AccountId::default(); MAX_SIGNERS],
    );
    assert_eq!(
        result,
        Err(ProcessError::Vesting(VestingError::NotAdministrator))
    );
}

#[test]
fn test_create_multisig_rejects_already_initialized() {
    let mut required = RequiredSigners::default();
    required.is_initialized = true;
    let vesting_type = VestingTypeAccount {
        is_initialized: true,
        vesting_schedule: sample_schedule(100),
        locked_tokens_amount: 0,
        administrator: id(7),
        token_pool: id(8),
    };
    let result = create_multisig(
        &required,
        &vesting_type,
        id(100),
        id(7),
        true,
        2,
        2,
        vec![AccountId::default(); MAX_SIGNERS],
    );
    assert_eq!(
        result,
        Err(ProcessError::Vesting(VestingError::AlreadyInitialized))
    );
}

#[test]
fn test_create_vesting_type_initializes_record() {
    let mut vesting_type = VestingTypeAccount::default();
    let schedule = sample_schedule(1_000);
    create_vesting_type(&mut vesting_type, id(7), true, true, schedule.clone(), id(8)).unwrap();
    assert!(vesting_type.is_initialized);
    assert_eq!(vesting_type.vesting_schedule, schedule);
    assert_eq!(vesting_type.locked_tokens_amount, 0);
    assert_eq!(vesting_type.administrator, id(7));
    assert_eq!(vesting_type.token_pool, id(8));
}

#[test]
fn test_create_vesting_type_rejects_invalid_schedule() {
    let mut vesting_type = VestingTypeAccount::default();
    // Overlapping tranches fail the validity predicate.
    let schedule = VestingSchedule::new(
        1_000,
        vec![
            (500, LinearVesting::new(10_000, 10_000, 3)),
            (500, LinearVesting::new(20_000, 10_000, 3)),
        ],
    );
    let result = create_vesting_type(&mut vesting_type, id(7), true, true, schedule, id(8));
    assert_eq!(
        result,
        Err(ProcessError::Vesting(VestingError::ScheduleIsNotValid))
    );
    assert!(!vesting_type.is_initialized);
}

#[test]
fn test_create_vesting_type_rejects_missing_rent_exemption() {
    let mut vesting_type = VestingTypeAccount::default();
    let result =
        create_vesting_type(&mut vesting_type, id(7), true, false, sample_schedule(1_000), id(8));
    assert_eq!(result, Err(ProcessError::Vesting(VestingError::NotRentExempt)));
}

#[test]
fn test_change_vesting_type_schedule_replaces_schedule() {
    let mut vesting_type = VestingTypeAccount {
        is_initialized: true,
        vesting_schedule: sample_schedule(1_000),
        locked_tokens_amount: 10,
        administrator: id(7),
        token_pool: id(8),
    };
    let new_schedule = sample_schedule(5_000);
    change_vesting_type_schedule(&mut vesting_type, id(7), true, new_schedule.clone()).unwrap();
    assert_eq!(vesting_type.vesting_schedule, new_schedule);
    assert_eq!(vesting_type.locked_tokens_amount, 10);
}

#[test]
fn test_change_vesting_type_schedule_requires_initialized_record() {
    let mut vesting_type = VestingTypeAccount::default();
    let result =
        change_vesting_type_schedule(&mut vesting_type, id(7), true, sample_schedule(1_000));
    assert_eq!(result, Err(ProcessError::Vesting(VestingError::NotInitialized)));
}

#[test]
fn test_create_vesting_account_locks_tokens() {
    let mut vesting_type = VestingTypeAccount {
        is_initialized: true,
        vesting_schedule: sample_schedule(1_000_000),
        locked_tokens_amount: 300_000,
        administrator: id(7),
        token_pool: id(8),
    };
    let mut vesting = VestingAccount::default();
    create_vesting_account(
        &mut vesting_type,
        id(100),
        &mut vesting,
        id(7),
        true,
        true,
        id(9),
        true,
        id(50),
        id(8),
        id(50),
        1_000_000,
        500_000,
    )
    .unwrap();
    assert!(vesting.is_initialized);
    assert_eq!(vesting.total_tokens, 500_000);
    assert_eq!(vesting.withdrawn_tokens, 0);
    assert_eq!(vesting.token_account, id(9));
    assert_eq!(vesting.vesting_type_account, id(100));
    assert_eq!(vesting_type.locked_tokens_amount, 800_000);
}

#[test]
fn test_create_vesting_account_rejects_overcommitted_pool() {
    let mut vesting_type = VestingTypeAccount {
        is_initialized: true,
        vesting_schedule: sample_schedule(1_000_000),
        locked_tokens_amount: 700_000,
        administrator: id(7),
        token_pool: id(8),
    };
    let mut vesting = VestingAccount::default();
    let result = create_vesting_account(
        &mut vesting_type,
        id(100),
        &mut vesting,
        id(7),
        true,
        true,
        id(9),
        true,
        id(50),
        id(8),
        id(50),
        1_000_000,
        500_000,
    );
    assert_eq!(
        result,
        Err(ProcessError::Vesting(VestingError::NotEnoughTokensInPool))
    );
    assert!(!vesting.is_initialized);
    assert_eq!(vesting_type.locked_tokens_amount, 700_000);
}

#[test]
fn test_withdraw_from_vesting_moves_unlocked_tokens() {
    let mut vesting_type = VestingTypeAccount {
        is_initialized: true,
        vesting_schedule: sample_schedule(1_000_000),
        locked_tokens_amount: 1_000_000,
        administrator: id(7),
        token_pool: id(8),
    };
    let mut vesting = VestingAccount {
        is_initialized: true,
        total_tokens: 1_000_000,
        withdrawn_tokens: 0,
        token_account: id(9),
        vesting_type_account: id(100),
    };
    // Past every unlock step the full allocation is available.
    withdraw_from_vesting(
        &mut vesting_type,
        id(100),
        &mut vesting,
        id(9),
        id(8),
        true,
        true,
        400_000,
        10_000,
    )
    .unwrap();
    assert_eq!(vesting.withdrawn_tokens, 400_000);
    assert_eq!(vesting_type.locked_tokens_amount, 600_000);
}

#[test]
fn test_withdraw_from_vesting_rejects_locked_tokens() {
    let mut vesting_type = VestingTypeAccount {
        is_initialized: true,
        vesting_schedule: sample_schedule(1_000_000),
        locked_tokens_amount: 1_000_000,
        administrator: id(7),
        token_pool: id(8),
    };
    let mut vesting = VestingAccount {
        is_initialized: true,
        total_tokens: 1_000_000,
        withdrawn_tokens: 0,
        token_account: id(9),
        vesting_type_account: id(100),
    };
    // Before the first cliff nothing is unlocked.
    let result = withdraw_from_vesting(
        &mut vesting_type,
        id(100),
        &mut vesting,
        id(9),
        id(8),
        true,
        true,
        1,
        500,
    );
    assert_eq!(
        result,
        Err(ProcessError::Vesting(VestingError::NotEnoughUnlockedTokens))
    );
    assert_eq!(vesting.withdrawn_tokens, 0);
    assert_eq!(vesting_type.locked_tokens_amount, 1_000_000);
}

#[test]
fn test_withdraw_excessive_from_pool_checks_unlocked_remainder() {
    let vesting_type = VestingTypeAccount {
        is_initialized: true,
        vesting_schedule: sample_schedule(100),
        locked_tokens_amount: 700,
        administrator: id(7),
        token_pool: id(8),
    };
    let accepted = withdraw_excessive_from_pool(
        &vesting_type,
        id(7),
        true,
        true,
        id(8),
        true,
        true,
        true,
        true,
        1_000,
        300,
    );
    assert_eq!(accepted, Ok(()));
    let rejected = withdraw_excessive_from_pool(
        &vesting_type,
        id(7),
        true,
        true,
        id(8),
        true,
        true,
        true,
        true,
        1_000,
        301,
    );
    assert_eq!(
        rejected,
        Err(ProcessError::Vesting(
            VestingError::NotEnoughUnlockedTokensInPool
        ))
    );
}

#[test]
fn test_withdraw_excessive_from_pool_rejects_non_administrator() {
    let vesting_type = VestingTypeAccount {
        is_initialized: true,
        vesting_schedule: sample_schedule(100),
        locked_tokens_amount: 0,
        administrator: id(7),
        token_pool: id(8),
    };
    let result = withdraw_excessive_from_pool(
        &vesting_type,
        id(6),
        true,
        true,
        id(8),
        true,
        true,
        true,
        true,
        1_000,
        10,
    );
    assert_eq!(
        result,
        Err(ProcessError::Vesting(VestingError::NotAdministrator))
    );
}

#[test]
fn test_vesting_error_codes_follow_declaration_order() {
    assert_eq!(VestingError::AlreadyInitialized.code(), 0);
    assert_eq!(VestingError::NotRentExempt.code(), 1);
    assert_eq!(VestingError::ScheduleIsNotValid.code(), 2);
    assert_eq!(VestingError::NotEnoughTokensInPool.code(), 3);
    assert_eq!(VestingError::NotAdministrator.code(), 4);
    assert_eq!(VestingError::NotInitialized.code(), 5);
    assert_eq!(VestingError::NotEnoughUnlockedTokensInPool.code(), 6);
    assert_eq!(VestingError::NotEnoughUnlockedTokens.code(), 7);
    assert_eq!(VestingError::DevestingAlreadySigned.code(), 8);
}
