use token_vesting::records::{
    AccountId, CurrentSigners, ProcessError, RequiredSigners, VestingAccount, VestingTypeAccount,
    MAX_SIGNERS,
};
use token_vesting::schedule::VestingSchedule;
use token_vesting::state::LinearVesting;
use token_vesting::storage::{
    decode_current_signers, decode_required_signers, decode_vesting_account, decode_vesting_type,
    encode_current_signers, encode_required_signers, encode_vesting_account, encode_vesting_type,
};

fn id(n: u64) -> AccountId {
    AccountId { w0: n, w1: n + 1, w2: n + 2, w3: n + 3 }
}

#[test]
fn test_vesting_type_record_round_trip() {
    let schedule = VestingSchedule::with_tokens(1_000_000)
        .cliff(20_000, Some(400_000))
        .add(LinearVesting::new(50_000, 10_000, 3), None)
        .build()
        .unwrap();
    let record = VestingTypeAccount {
        is_initialized: true,
        vesting_schedule: schedule,
        locked_tokens_amount: 250_000,
        administrator: id(10),
        token_pool: id(20),
    };
    let bytes = encode_vesting_type(&record);
    assert_eq!(bytes.len(), 482);
    assert_eq!(decode_vesting_type(&bytes).unwrap(), record);
}

#[test]
fn test_vesting_account_record_round_trip_and_layout() {
    let record = VestingAccount {
        is_initialized: true,
        total_tokens: 0x0102_0304_0506_0708,
        withdrawn_tokens: 7,
        token_account: id(30),
        vesting_type_account: id(40),
    };
    let bytes = encode_vesting_account(&record);
    assert_eq!(bytes.len(), 81);
    assert_eq!(bytes[0], 1);
    // The total-token field travels little endian right after the flag.
    assert_eq!(&bytes[1..9], &[8, 7, 6, 5, 4, 3, 2, 1]);
    assert_eq!(decode_vesting_account(&bytes).unwrap(), record);
}

#[test]
fn test_required_signers_record_round_trip() {
    let mut signers = vec![AccountId::default(); MAX_SIGNERS];
    signers[0] = id(1);
    signers[1] = id(2);
    let record = RequiredSigners {
        is_initialized: false,
        require_signers: signers,
        require_number: 2,
        all_number: 3,
        vesting_type_account: id(50),
    };
    let bytes = encode_required_signers(&record);
    assert_eq!(bytes.len(), 387);
    assert_eq!(decode_required_signers(&bytes).unwrap(), record);
}

#[test]
fn test_current_signers_record_round_trip() {
    let mut flags = vec![false; MAX_SIGNERS];
    flags[3] = true;
    let record = CurrentSigners {
        is_initialized: true,
        current_signers: flags,
        vesting_account: id(60),
    };
    let bytes = encode_current_signers(&record);
    assert_eq!(bytes.len(), 44);
    assert_eq!(bytes[4], 1);
    assert_eq!(decode_current_signers(&bytes).unwrap(), record);
}

#[test]
fn test_decode_rejects_malformed_records() {
    // Wrong lengths.
    assert_eq!(
        decode_vesting_account(&[0; 80]),
        Err(ProcessError::InvalidAccountData)
    );
    assert_eq!(
        decode_current_signers(&[0; 43]),
        Err(ProcessError::InvalidAccountData)
    );

    // A flag byte that is not a boolean.
    let mut bytes = encode_vesting_account(&VestingAccount::default());
    bytes[0] = 2;
    assert_eq!(
        decode_vesting_account(&bytes),
        Err(ProcessError::InvalidAccountData)
    );

    // A bitmap slot that is not a boolean.
    let mut bytes = encode_current_signers(&CurrentSigners::default());
    bytes[2] = 9;
    assert_eq!(
        decode_current_signers(&bytes),
        Err(ProcessError::InvalidAccountData)
    );
}

#[test]
fn test_decode_rejects_malformed_schedules() {
    let record = VestingTypeAccount {
        is_initialized: true,
        vesting_schedule: VestingSchedule::with_tokens(100)
            .cliff(10, Some(100))
            .build()
            .unwrap(),
        locked_tokens_amount: 0,
        administrator: id(70),
        token_pool: id(80),
    };
    let good = encode_vesting_type(&record);
    assert_eq!(decode_vesting_type(&good).unwrap(), record);

    // A slot count beyond the capacity.
    let mut bytes = good.clone();
    bytes[9] = 17;
    assert_eq!(
        decode_vesting_type(&bytes),
        Err(ProcessError::InvalidAccountData)
    );

    // An in-use slot whose tranche has no unlock step.
    let mut bytes = good.clone();
    bytes[10 + 24] = 0;
    assert_eq!(
        decode_vesting_type(&bytes),
        Err(ProcessError::InvalidAccountData)
    );

    // An unused slot that is not canonical.
    let mut bytes = good.clone();
    bytes[10 + 25 + 3] = 1;
    assert_eq!(
        decode_vesting_type(&bytes),
        Err(ProcessError::InvalidAccountData)
    );
}
