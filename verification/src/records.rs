//! The persistent record types and the grant's withdrawable-amount
//! computation.
//!
//! Records hold only plain values; loading them from and storing them to the
//! surrounding storage, as well as authenticating callers, is the caller's
//! business.  Identities are opaque 256-bit values compared for equality
//! only.

use vstd::prelude::*;

use crate::schedule::VestingSchedule;
use crate::state::{
    lemma_schedule_available_monotonic, pairs_wf, schedule_available, sum_amounts, LinearVesting,
};

verus! {

/// The number of approver slots in the quorum records.
pub const MAX_SIGNERS: usize = 11;

/// An opaque 256-bit account identity, held as four 64-bit words and
/// compared for equality only.  Unused approver slots hold the zero
/// identity.
#[derive(Debug, Clone, Copy, PartialEq, Eq, Structural)]
pub struct AccountId {
    pub w0: u64,
    pub w1: u64,
    pub w2: u64,
    pub w3: u64,
}

impl AccountId {
    /// The all-zero identity, used for unused slots.
    pub open spec fn spec_zero() -> AccountId {
        AccountId { w0: 0, w1: 0, w2: 0, w3: 0 }
    }

    pub fn zero() -> (r: AccountId)
        ensures
            r == AccountId::spec_zero(),
    {
        AccountId { w0: 0, w1: 0, w2: 0, w3: 0 }
    }
}

impl Default for AccountId {
    fn default() -> (r: Self)
        ensures
            r == AccountId::spec_zero(),
    {
        AccountId::zero()
    }
}

/// The operational failures surfaced to the caller of an instruction.
#[derive(Debug, Clone, Copy, PartialEq, Eq, Structural)]
pub enum VestingError {
    /// The record is already initialized.
    AlreadyInitialized,
    /// The record's storage deposit does not cover rent exemption.
    NotRentExempt,
    /// The supplied vesting schedule fails its validity predicate.
    ScheduleIsNotValid,
    /// The pool holds fewer free tokens than the grant asks to lock.
    NotEnoughTokensInPool,
    /// The caller does not administer this vesting type.
    NotAdministrator,
    /// The record has not been initialized yet.
    NotInitialized,
    /// The pool's unlocked remainder is smaller than the requested amount.
    NotEnoughUnlockedTokensInPool,
    /// The grant's unlocked remainder is smaller than the requested amount.
    NotEnoughUnlockedTokens,
    /// This approver already signed the termination of this grant.
    DevestingAlreadySigned,
}

impl VestingError {
    /// The numeric code the error is reported under: its position in the
    /// declaration order.
    pub open spec fn spec_code(self) -> u32 {
        match self {
            VestingError::AlreadyInitialized => 0,
            VestingError::NotRentExempt => 1,
            VestingError::ScheduleIsNotValid => 2,
            VestingError::NotEnoughTokensInPool => 3,
            VestingError::NotAdministrator => 4,
            VestingError::NotInitialized => 5,
            VestingError::NotEnoughUnlockedTokensInPool => 6,
            VestingError::NotEnoughUnlockedTokens => 7,
            VestingError::DevestingAlreadySigned => 8,
        }
    }

    pub fn code(&self) -> (r: u32)
        ensures
            r == self.spec_code(),
    {
        match *self {
            VestingError::AlreadyInitialized => 0,
            VestingError::NotRentExempt => 1,
            VestingError::ScheduleIsNotValid => 2,
            VestingError::NotEnoughTokensInPool => 3,
            VestingError::NotAdministrator => 4,
            VestingError::NotInitialized => 5,
            VestingError::NotEnoughUnlockedTokensInPool => 6,
            VestingError::NotEnoughUnlockedTokens => 7,
            VestingError::DevestingAlreadySigned => 8,
        }
    }
}

/// A failed record-level validation: either a generic record fault or a
/// [`VestingError`].
#[derive(Debug, Clone, Copy, PartialEq, Eq, Structural)]
pub enum ProcessError {
    /// The required caller authority is missing.
    MissingRequiredSignature,
    /// A record that must be initialized is not.
    UninitializedAccount,
    /// A record references a different record than the one supplied.
    InvalidAccountData,
    /// A supplied record is not the one the operation expects.
    IncorrectProgramId,
    /// Instruction bytes that no instruction encodes to.
    InvalidInstructionData,
    /// An operational error of the vesting rules.
    Vesting(VestingError),
}

/// The pool-level record: the schedule all grants of this type follow, the
/// tokens locked by active grants, and the administrator and pool
/// identities.
#[derive(Debug, Clone, PartialEq, Eq)]
pub struct VestingTypeAccount {
    pub is_initialized: bool,
    pub vesting_schedule: VestingSchedule,
    pub locked_tokens_amount: u64,
    pub administrator: AccountId,
    pub token_pool: AccountId,
}

impl Default for VestingTypeAccount {
    fn default() -> (r: Self)
        ensures
            r.is_initialized == false,
            r.vesting_schedule.pairs().len() == 0,
            r.vesting_schedule.spec_token_count() == 0,
            r.locked_tokens_amount == 0,
            r.administrator == AccountId::spec_zero(),
            r.token_pool == AccountId::spec_zero(),
    {
        VestingTypeAccount {
            is_initialized: false,
            vesting_schedule: Default::default(),
            locked_tokens_amount: 0,
            administrator: AccountId::zero(),
            token_pool: AccountId::zero(),
        }
    }
}

/// One beneficiary's grant: its total allocation, what was withdrawn so far,
/// and the identities of the receiving token account and the owning vesting
/// type record.
#[derive(Debug, Clone, Copy, PartialEq, Eq, Structural)]
pub struct VestingAccount {
    pub is_initialized: bool,
    pub total_tokens: u64,
    pub withdrawn_tokens: u64,
    pub token_account: AccountId,
    pub vesting_type_account: AccountId,
}

impl Default for VestingAccount {
    fn default() -> (r: Self)
        ensures
            r == VestingAccount::spec_default(),
    {
        VestingAccount {
            is_initialized: false,
            total_tokens: 0,
            withdrawn_tokens: 0,
            token_account: AccountId::zero(),
            vesting_type_account: AccountId::zero(),
        }
    }
}

impl VestingAccount {
    /// The empty grant record, as written back when a grant is destroyed.
    pub open spec fn spec_default() -> VestingAccount {
        VestingAccount {
            is_initialized: false,
            total_tokens: 0,
            withdrawn_tokens: 0,
            token_account: AccountId::spec_zero(),
            vesting_type_account: AccountId::spec_zero(),
        }
    }

    /// The tokens the beneficiary may withdraw now: the schedule's unlocked
    /// amount, capped at the grant's allocation, minus what was already
    /// withdrawn (never negative).
    pub fn calculate_available_to_withdraw_amount(
        &self,
        schedule: &VestingSchedule,
        now: u64,
    ) -> (r: u64)
        requires
            pairs_wf(schedule.pairs()),
            sum_amounts(schedule.pairs()) <= u64::MAX,
        ensures
            r == spec_withdrawable(
                self.total_tokens,
                self.withdrawn_tokens,
                schedule.pairs(),
                now,
            ),
    {
        let unlocked_amount = schedule.available(now);
        let unlocked_amount = if unlocked_amount <= self.total_tokens {
            unlocked_amount
        } else {
            self.total_tokens
        };
        if unlocked_amount >= self.withdrawn_tokens {
            unlocked_amount - self.withdrawn_tokens
        } else {
            0
        }
    }
}

/// The static quorum policy bound to one vesting type: the approver
/// identities (unused slots zero) and the required and total counts, copied
/// once from an external multisig configuration.
#[derive(Debug, Clone, PartialEq, Eq)]
pub struct RequiredSigners {
    pub is_initialized: bool,
    pub require_signers: Vec<AccountId>,
    pub require_number: u8,
    pub all_number: u8,
    pub vesting_type_account: AccountId,
}

impl RequiredSigners {
    /// The record always carries exactly one slot per possible approver.
    pub open spec fn wf(self) -> bool {
        self.require_signers@.len() == MAX_SIGNERS
    }
}

impl Default for RequiredSigners {
    fn default() -> (r: Self)
        ensures
            r.is_initialized == false,
            r.require_signers@.len() == MAX_SIGNERS,
            forall|i: int|
                0 <= i < MAX_SIGNERS ==> r.require_signers@[i] == AccountId::spec_zero(),
            r.require_number == 0,
            r.all_number == 0,
            r.vesting_type_account == AccountId::spec_zero(),
            r.wf(),
    {
        RequiredSigners {
            is_initialized: false,
            require_signers: zero_identities(),
            require_number: 0,
            all_number: 0,
            vesting_type_account: AccountId::zero(),
        }
    }
}

/// The mutable per-grant approval bitmap: one slot per approver-array
/// position, plus the identity of the grant it tracks.
#[derive(Debug, Clone, PartialEq, Eq)]
pub struct CurrentSigners {
    pub is_initialized: bool,
    pub current_signers: Vec<bool>,
    pub vesting_account: AccountId,
}

impl CurrentSigners {
    /// The record always carries exactly one slot per possible approver.
    pub open spec fn wf(self) -> bool {
        self.current_signers@.len() == MAX_SIGNERS
    }
}

impl Default for CurrentSigners {
    fn default() -> (r: Self)
        ensures
            r.is_initialized == false,
            r.current_signers@.len() == MAX_SIGNERS,
            forall|i: int| 0 <= i < MAX_SIGNERS ==> r.current_signers@[i] == false,
            r.vesting_account == AccountId::spec_zero(),
            r.wf(),
    {
        CurrentSigners {
            is_initialized: false,
            current_signers: blank_flags(),
            vesting_account: AccountId::zero(),
        }
    }
}

fn zero_identities() -> (r: Vec<AccountId>)
    ensures
        r@.len() == MAX_SIGNERS,
        forall|i: int| 0 <= i < MAX_SIGNERS ==> r@[i] == AccountId::spec_zero(),
{
    let mut out: Vec<AccountId> = Vec::new();
    let mut i: usize = 0;
    while i < MAX_SIGNERS
        invariant
            i <= MAX_SIGNERS,
            out@.len() == i,
            forall|j: int| 0 <= j < i ==> out@[j] == AccountId::spec_zero(),
        decreases MAX_SIGNERS - i,
    {
        out.push(AccountId::zero());
        i = i + 1;
    }
    out
}

fn blank_flags() -> (r: Vec<bool>)
    ensures
        r@.len() == MAX_SIGNERS,
        forall|i: int| 0 <= i < MAX_SIGNERS ==> r@[i] == false,
{
    let mut out: Vec<bool> = Vec::new();
    let mut i: usize = 0;
    while i < MAX_SIGNERS
        invariant
            i <= MAX_SIGNERS,
            out@.len() == i,
            forall|j: int| 0 <= j < i ==> out@[j] == false,
        decreases MAX_SIGNERS - i,
    {
        out.push(false);
        i = i + 1;
    }
    out
}

/// The amount a grant holder may withdraw at `now`: the schedule's unlocked
/// amount capped at the grant's allocation, minus the tokens already
/// withdrawn, and never negative.
pub open spec fn spec_withdrawable(
    total_tokens: u64,
    withdrawn_tokens: u64,
    pairs: Seq<(u64, LinearVesting)>,
    now: u64,
) -> int {
    let unlocked = schedule_available(pairs, now as int);
    let capped = if unlocked <= total_tokens {
        unlocked
    } else {
        total_tokens as int
    };
    if capped >= withdrawn_tokens {
        capped - withdrawn_tokens
    } else {
        0
    }
}

/// The withdrawable amount never decreases as time advances, and is never
/// negative.
pub proof fn lemma_withdrawable_monotonic_in_time(
    total_tokens: u64,
    withdrawn_tokens: u64,
    pairs: Seq<(u64, LinearVesting)>,
    t1: u64,
    t2: u64,
)
    requires
        pairs_wf(pairs),
        t1 <= t2,
    ensures
        spec_withdrawable(total_tokens, withdrawn_tokens, pairs, t1) <= spec_withdrawable(
            total_tokens,
            withdrawn_tokens,
            pairs,
            t2,
        ),
        spec_withdrawable(total_tokens, withdrawn_tokens, pairs, t1) >= 0,
{
    lemma_schedule_available_monotonic(pairs, t1 as int, t2 as int);
}

/// The withdrawable amount never increases as the withdrawn total grows, and
/// is never negative.
pub proof fn lemma_withdrawable_antitone_in_withdrawn(
    total_tokens: u64,
    w1: u64,
    w2: u64,
    pairs: Seq<(u64, LinearVesting)>,
    now: u64,
)
    requires
        w1 <= w2,
    ensures
        spec_withdrawable(total_tokens, w2, pairs, now) <= spec_withdrawable(
            total_tokens,
            w1,
            pairs,
            now,
        ),
        spec_withdrawable(total_tokens, w2, pairs, now) >= 0,
{
}

} // verus!
