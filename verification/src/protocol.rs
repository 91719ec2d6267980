//! The instruction-level decision functions, including the quorum-gated
//! termination state machine.
//!
//! Each function takes already-loaded records and already-authenticated
//! facts, validates them in the same order the stored records demand, and
//! either returns the first failed check — leaving every record untouched —
//! or returns the new record states.  Persisting the results, transferring
//! tokens and reclaiming storage deposits are the caller's business.

use vstd::prelude::*;
use vstd::slice::slice_index_get;

use crate::records::{
    spec_withdrawable, AccountId, CurrentSigners, ProcessError, RequiredSigners, VestingAccount,
    VestingError, VestingTypeAccount,
};
use crate::schedule::VestingSchedule;
use crate::state::{pairs_wf, sum_amounts};

verus! {

/// The number of `true` slots in an approval bitmap.
pub open spec fn count_true(flags: Seq<bool>) -> int
    decreases flags.len(),
{
    if flags.len() == 0 {
        0
    } else {
        (if flags[0] {
            1int
        } else {
            0int
        }) + count_true(flags.drop_first())
    }
}

/// Whether the approvals recorded in `current_signers` meet the required
/// count.
pub fn validate_signers(current_signers: &[bool], require: u8) -> (r: bool)
    ensures
        r == (count_true(current_signers@) >= require),
{
    let ghost flags = current_signers@;
    let n = current_signers.len();
    let mut num_signers: usize = 0;
    let mut i: usize = 0;
    proof {
        assert(flags.skip(0) =~= flags);
    }
    while i < n
        invariant
            i <= n,
            n == flags.len(),
            current_signers@ == flags,
            num_signers <= i,
            num_signers + count_true(flags.skip(i as int)) == count_true(flags),
        decreases n - i,
    {
        proof {
            assert(flags.skip(i as int)[0] == flags[i as int]);
            assert(flags.skip(i as int).drop_first() =~= flags.skip(i as int + 1));
        }
        if *slice_index_get(current_signers, i) {
            num_signers = num_signers + 1;
        }
        i = i + 1;
    }
    proof {
        assert(flags.skip(n as int) =~= Seq::<bool>::empty());
    }
    num_signers >= require as usize
}

/// The position of the first slot holding `key`, if any.
pub open spec fn find_signer(signers: Seq<AccountId>, key: AccountId) -> Option<int>
    decreases signers.len(),
{
    if signers.len() == 0 {
        None
    } else if signers[0] == key {
        Some(0int)
    } else {
        match find_signer(signers.drop_first(), key) {
            Some(i) => Some(i + 1),
            None => None,
        }
    }
}

pub proof fn lemma_find_signer_in_range(signers: Seq<AccountId>, key: AccountId)
    ensures
        match find_signer(signers, key) {
            Some(i) => 0 <= i < signers.len() && signers[i] == key,
            None => forall|j: int| 0 <= j < signers.len() ==> signers[j] != key,
        },
    decreases signers.len(),
{
    if signers.len() > 0 {
        lemma_find_signer_in_range(signers.drop_first(), key);
        if signers[0] != key {
            match find_signer(signers.drop_first(), key) {
                Some(i) => {
                    assert(signers.drop_first()[i] == signers[i + 1]);
                },
                None => {
                    assert forall|j: int| 0 <= j < signers.len() implies signers[j] != key by {
                        if j > 0 {
                            assert(signers.drop_first()[j - 1] == signers[j]);
                        }
                    }
                },
            }
        }
    }
}

pub proof fn lemma_find_signer_first(signers: Seq<AccountId>, key: AccountId, i: int)
    requires
        0 <= i < signers.len(),
        signers[i] == key,
        forall|j: int| 0 <= j < i ==> signers[j] != key,
    ensures
        find_signer(signers, key) == Some(i),
    decreases signers.len(),
{
    if i == 0 {
    } else {
        assert(signers[0] != key);
        assert(signers.drop_first()[i - 1] == signers[i]);
        assert forall|j: int| 0 <= j < i - 1 implies signers.drop_first()[j] != key by {
            assert(signers.drop_first()[j] == signers[j + 1]);
        }
        lemma_find_signer_first(signers.drop_first(), key, i - 1);
    }
}

pub proof fn lemma_find_signer_none(signers: Seq<AccountId>, key: AccountId)
    requires
        forall|j: int| 0 <= j < signers.len() ==> signers[j] != key,
    ensures
        find_signer(signers, key) is None,
    decreases signers.len(),
{
    if signers.len() > 0 {
        assert forall|j: int| 0 <= j < signers.len() - 1 implies signers.drop_first()[j] != key by {
            assert(signers.drop_first()[j] == signers[j + 1]);
        }
        lemma_find_signer_none(signers.drop_first(), key);
    }
}

/// The approval decision: the error an approval attempt is rejected with,
/// or the updated bitmap and whether the quorum threshold is now met.
///
/// The threshold is evaluated on the bitmap after the new approval is
/// recorded.
pub open spec fn spec_sign_devesting(
    required: RequiredSigners,
    current: CurrentSigners,
    signer: AccountId,
    signer_is_authenticated: bool,
    vesting_type_id: AccountId,
    vesting_id: AccountId,
) -> Result<(Seq<bool>, bool), ProcessError> {
    match find_signer(required.require_signers@, signer) {
        None => Err(ProcessError::MissingRequiredSignature),
        Some(index) => {
            if !required.is_initialized {
                Err(ProcessError::UninitializedAccount)
            } else if vesting_type_id != required.vesting_type_account {
                Err(ProcessError::InvalidAccountData)
            } else if !current.is_initialized {
                Err(ProcessError::UninitializedAccount)
            } else if vesting_id != current.vesting_account {
                Err(ProcessError::InvalidAccountData)
            } else if !signer_is_authenticated {
                Err(ProcessError::MissingRequiredSignature)
            } else if current.current_signers@[index] {
                Err(ProcessError::Vesting(VestingError::DevestingAlreadySigned))
            } else {
                let updated = current.current_signers@.update(index, true);
                Ok((updated, count_true(updated) >= required.require_number))
            }
        },
    }
}

/// Records one approver's approval of terminating the grant `vesting_id`.
///
/// The caller must be one of the stored approver identities, must hold
/// signing authority now, and must not have signed before; a valid approval
/// flips the caller's slot.  On success the returned flag says whether the
/// quorum threshold is met, in which case the caller follows up with
/// [`close_vesting_account`] and destroys the progress record; on any error
/// nothing may be persisted.
pub fn sign_devesting(
    required: &RequiredSigners,
    current: &CurrentSigners,
    signer: AccountId,
    signer_is_authenticated: bool,
    vesting_type_id: AccountId,
    vesting_id: AccountId,
) -> (r: Result<(CurrentSigners, bool), ProcessError>)
    requires
        required.wf(),
        current.wf(),
    ensures
        match spec_sign_devesting(
            *required,
            *current,
            signer,
            signer_is_authenticated,
            vesting_type_id,
            vesting_id,
        ) {
            Err(e) => r == Err::<(CurrentSigners, bool), ProcessError>(e),
            Ok((flags, closing)) => r matches Ok(out) && {
                &&& out.0.current_signers@ == flags
                &&& out.0.is_initialized == current.is_initialized
                &&& out.0.vesting_account == current.vesting_account
                &&& out.1 == closing
            },
        },
{
    let ghost signers_seq = required.require_signers@;
    let n = required.require_signers.len();
    let mut index: usize = 0;
    let mut found = false;
    while index < n
        invariant_except_break
            index <= n,
            n == signers_seq.len(),
            required.require_signers@ == signers_seq,
            !found,
            forall|j: int| 0 <= j < index ==> signers_seq[j] != signer,
        ensures
            found ==> index < n && signers_seq[index as int] == signer && forall|j: int|
                0 <= j < index ==> signers_seq[j] != signer,
            !found ==> forall|j: int| 0 <= j < n ==> signers_seq[j] != signer,
        decreases n - index,
    {
        if required.require_signers[index] == signer {
            found = true;
            break;
        }
        index = index + 1;
    }
    if !found {
        proof {
            lemma_find_signer_none(signers_seq, signer);
        }
        return Err(ProcessError::MissingRequiredSignature);
    }
    proof {
        lemma_find_signer_first(signers_seq, signer, index as int);
    }

    if !required.is_initialized {
        return Err(ProcessError::UninitializedAccount);
    }
    if vesting_type_id != required.vesting_type_account {
        return Err(ProcessError::InvalidAccountData);
    }
    if !current.is_initialized {
        return Err(ProcessError::UninitializedAccount);
    }
    if vesting_id != current.vesting_account {
        return Err(ProcessError::InvalidAccountData);
    }
    if !signer_is_authenticated {
        return Err(ProcessError::MissingRequiredSignature);
    }
    if *slice_index_get(current.current_signers.as_slice(), index) {
        return Err(ProcessError::Vesting(VestingError::DevestingAlreadySigned));
    }

    let updated = set_flag(&current.current_signers, index, true);
    let closing = validate_signers(updated.as_slice(), required.require_number);
    let out = CurrentSigners {
        is_initialized: current.is_initialized,
        current_signers: updated,
        vesting_account: current.vesting_account,
    };
    Ok((out, closing))
}

/// A given approver flips its slot at most once: after one successful
/// approval, a second attempt by the same approver is rejected with
/// `DevestingAlreadySigned`, and so changes nothing.
pub proof fn lemma_sign_devesting_at_most_once(
    required: RequiredSigners,
    current: CurrentSigners,
    next: CurrentSigners,
    closing: bool,
    signer: AccountId,
    vesting_type_id: AccountId,
    vesting_id: AccountId,
)
    requires
        required.wf(),
        current.wf(),
        spec_sign_devesting(required, current, signer, true, vesting_type_id, vesting_id) == Ok::<
            (Seq<bool>, bool),
            ProcessError,
        >((next.current_signers@, closing)),
        next.is_initialized == current.is_initialized,
        next.vesting_account == current.vesting_account,
        current.current_signers@.len() == next.current_signers@.len(),
    ensures
        spec_sign_devesting(required, next, signer, true, vesting_type_id, vesting_id) == Err::<
            (Seq<bool>, bool),
            ProcessError,
        >(ProcessError::Vesting(VestingError::DevestingAlreadySigned)),
{
    lemma_find_signer_in_range(required.require_signers@, signer);
    let index = find_signer(required.require_signers@, signer)->Some_0;
    assert(next.current_signers@ == current.current_signers@.update(index, true));
    assert(next.current_signers@[index] == true);
}

/// Copies a flag vector with one slot replaced.
fn set_flag(flags: &Vec<bool>, index: usize, value: bool) -> (r: Vec<bool>)
    requires
        index < flags@.len(),
    ensures
        r@ == flags@.update(index as int, value),
{
    let mut out: Vec<bool> = Vec::new();
    let mut i: usize = 0;
    while i < flags.len()
        invariant
            i <= flags@.len(),
            index < flags@.len(),
            out@.len() == i,
            forall|j: int|
                0 <= j < i ==> out@[j] == (if j == index {
                    value
                } else {
                    flags@[j]
                }),
        decreases flags@.len() - i,
    {
        if i == index {
            out.push(value);
        } else {
            out.push(*slice_index_get(flags.as_slice(), i));
        }
        i = i + 1;
    }
    proof {
        assert(out@ =~= flags@.update(index as int, value));
    }
    out
}

/// The first failed closure validation, if any: both records must be
/// initialized and the grant must belong to the supplied vesting type.
pub open spec fn spec_close_error(
    vesting_type_data: VestingTypeAccount,
    vesting_type_id: AccountId,
    vesting_data: VestingAccount,
) -> Option<ProcessError> {
    if !vesting_type_data.is_initialized {
        Some(ProcessError::UninitializedAccount)
    } else if !vesting_data.is_initialized {
        Some(ProcessError::UninitializedAccount)
    } else if vesting_data.vesting_type_account != vesting_type_id {
        Some(ProcessError::InvalidAccountData)
    } else {
        None
    }
}

/// Closes a grant after a met quorum: the owning vesting type's locked-token
/// counter is rolled back by the grant's unvested remainder and the grant
/// record is reset to its empty default.  On any error both records are left
/// unchanged.
pub fn close_vesting_account(
    vesting_type_data: &mut VestingTypeAccount,
    vesting_type_id: AccountId,
    vesting_data: &mut VestingAccount,
) -> (r: Result<(), ProcessError>)
    requires
        spec_close_error(*old(vesting_type_data), vesting_type_id, *old(vesting_data)) is None
            ==> {
            &&& old(vesting_data).withdrawn_tokens <= old(vesting_data).total_tokens
            &&& old(vesting_data).total_tokens - old(vesting_data).withdrawn_tokens <= old(
                vesting_type_data,
            ).locked_tokens_amount
        },
    ensures
        match spec_close_error(*old(vesting_type_data), vesting_type_id, *old(vesting_data)) {
            Some(e) => r == Err::<(), ProcessError>(e) && *final(vesting_type_data) == *old(
                vesting_type_data,
            ) && *final(vesting_data) == *old(vesting_data),
            None => r is Ok && {
                &&& final(vesting_type_data).locked_tokens_amount == old(
                    vesting_type_data,
                ).locked_tokens_amount - (old(vesting_data).total_tokens - old(
                    vesting_data,
                ).withdrawn_tokens)
                &&& final(vesting_type_data).is_initialized == old(
                    vesting_type_data,
                ).is_initialized
                &&& final(vesting_type_data).vesting_schedule == old(
                    vesting_type_data,
                ).vesting_schedule
                &&& final(vesting_type_data).administrator == old(vesting_type_data).administrator
                &&& final(vesting_type_data).token_pool == old(vesting_type_data).token_pool
                &&& *final(vesting_data) == VestingAccount::spec_default()
            },
        },
{
    if !vesting_type_data.is_initialized {
        return Err(ProcessError::UninitializedAccount);
    }
    if !vesting_data.is_initialized {
        return Err(ProcessError::UninitializedAccount);
    }
    if vesting_data.vesting_type_account != vesting_type_id {
        return Err(ProcessError::InvalidAccountData);
    }

    vesting_type_data.locked_tokens_amount = vesting_type_data.locked_tokens_amount
        - (vesting_data.total_tokens - vesting_data.withdrawn_tokens);
    *vesting_data = Default::default();
    Ok(())
}

/// The first failed check of a quorum-policy creation, if any.
pub open spec fn spec_create_multisig_error(
    required_signers_data: RequiredSigners,
    vesting_type_data: VestingTypeAccount,
    signer: AccountId,
    signer_is_authenticated: bool,
) -> Option<ProcessError> {
    if !signer_is_authenticated {
        Some(ProcessError::MissingRequiredSignature)
    } else if required_signers_data.is_initialized {
        Some(ProcessError::Vesting(VestingError::AlreadyInitialized))
    } else if !vesting_type_data.is_initialized {
        Some(ProcessError::UninitializedAccount)
    } else if vesting_type_data.administrator != signer {
        Some(ProcessError::Vesting(VestingError::NotAdministrator))
    } else {
        None
    }
}

/// Derives the quorum policy of a vesting type from an external M-of-N
/// multisig configuration: permitted once, by the type's administrator.  On
/// success the returned record is initialized and carries the copied
/// approver set and counts; a later attempt against it is rejected.
pub fn create_multisig(
    required_signers_data: &RequiredSigners,
    vesting_type_data: &VestingTypeAccount,
    vesting_type_id: AccountId,
    signer: AccountId,
    signer_is_authenticated: bool,
    multisig_require_number: u8,
    multisig_all_number: u8,
    multisig_signers: Vec<AccountId>,
) -> (r: Result<RequiredSigners, ProcessError>)
    ensures
        match spec_create_multisig_error(
            *required_signers_data,
            *vesting_type_data,
            signer,
            signer_is_authenticated,
        ) {
            Some(e) => r == Err::<RequiredSigners, ProcessError>(e),
            None => r matches Ok(out) && {
                &&& out.is_initialized == true
                &&& out.require_signers@ == multisig_signers@
                &&& out.require_number == multisig_require_number
                &&& out.all_number == multisig_all_number
                &&& out.vesting_type_account == vesting_type_id
            },
        },
{
    if !signer_is_authenticated {
        return Err(ProcessError::MissingRequiredSignature);
    }
    if required_signers_data.is_initialized {
        return Err(ProcessError::Vesting(VestingError::AlreadyInitialized));
    }
    if !vesting_type_data.is_initialized {
        return Err(ProcessError::UninitializedAccount);
    }
    if vesting_type_data.administrator != signer {
        return Err(ProcessError::Vesting(VestingError::NotAdministrator));
    }
    Ok(
        RequiredSigners {
            is_initialized: true,
            require_signers: multisig_signers,
            require_number: multisig_require_number,
            all_number: multisig_all_number,
            vesting_type_account: vesting_type_id,
        },
    )
}

/// The first failed check of a vesting-type creation, if any.
pub open spec fn spec_create_vesting_type_error(
    vesting_type_data: VestingTypeAccount,
    signer_is_authenticated: bool,
    is_rent_exempt: bool,
    vesting_schedule: VestingSchedule,
) -> Option<ProcessError> {
    if !signer_is_authenticated {
        Some(ProcessError::MissingRequiredSignature)
    } else if vesting_type_data.is_initialized {
        Some(ProcessError::Vesting(VestingError::AlreadyInitialized))
    } else if !is_rent_exempt {
        Some(ProcessError::Vesting(VestingError::NotRentExempt))
    } else if !vesting_schedule.spec_is_valid() {
        Some(ProcessError::Vesting(VestingError::ScheduleIsNotValid))
    } else {
        None
    }
}

/// Initializes a vesting type record: its schedule must pass the validity
/// predicate, the record must be fresh and rent exempt, and the caller
/// becomes its administrator.  On any error the record is left unchanged.
pub fn create_vesting_type(
    vesting_type_data: &mut VestingTypeAccount,
    signer: AccountId,
    signer_is_authenticated: bool,
    is_rent_exempt: bool,
    vesting_schedule: VestingSchedule,
    token_pool_id: AccountId,
) -> (r: Result<(), ProcessError>)
    requires
        pairs_wf(vesting_schedule.pairs()),
    ensures
        match spec_create_vesting_type_error(
            *old(vesting_type_data),
            signer_is_authenticated,
            is_rent_exempt,
            vesting_schedule,
        ) {
            Some(e) => r == Err::<(), ProcessError>(e) && *final(vesting_type_data) == *old(
                vesting_type_data,
            ),
            None => r is Ok && {
                &&& final(vesting_type_data).is_initialized == true
                &&& final(vesting_type_data).vesting_schedule == vesting_schedule
                &&& final(vesting_type_data).locked_tokens_amount == 0
                &&& final(vesting_type_data).administrator == signer
                &&& final(vesting_type_data).token_pool == token_pool_id
            },
        },
{
    if !signer_is_authenticated {
        return Err(ProcessError::MissingRequiredSignature);
    }
    if vesting_type_data.is_initialized {
        return Err(ProcessError::Vesting(VestingError::AlreadyInitialized));
    }
    if !is_rent_exempt {
        return Err(ProcessError::Vesting(VestingError::NotRentExempt));
    }
    if !vesting_schedule.is_valid() {
        return Err(ProcessError::Vesting(VestingError::ScheduleIsNotValid));
    }

    vesting_type_data.is_initialized = true;
    vesting_type_data.vesting_schedule = vesting_schedule;
    vesting_type_data.locked_tokens_amount = 0;
    vesting_type_data.administrator = signer;
    vesting_type_data.token_pool = token_pool_id;
    Ok(())
}

/// The first failed check of a schedule replacement, if any.
pub open spec fn spec_change_schedule_error(
    vesting_type_data: VestingTypeAccount,
    signer: AccountId,
    signer_is_authenticated: bool,
    new_schedule: VestingSchedule,
) -> Option<ProcessError> {
    if !signer_is_authenticated {
        Some(ProcessError::MissingRequiredSignature)
    } else if !vesting_type_data.is_initialized {
        Some(ProcessError::Vesting(VestingError::NotInitialized))
    } else if vesting_type_data.administrator != signer {
        Some(ProcessError::Vesting(VestingError::NotAdministrator))
    } else if !new_schedule.spec_is_valid() {
        Some(ProcessError::Vesting(VestingError::ScheduleIsNotValid))
    } else {
        None
    }
}

/// Replaces an initialized vesting type's schedule with a new valid one;
/// only the administrator may do so.  On any error the record is left
/// unchanged.
pub fn change_vesting_type_schedule(
    vesting_type_data: &mut VestingTypeAccount,
    signer: AccountId,
    signer_is_authenticated: bool,
    new_schedule: VestingSchedule,
) -> (r: Result<(), ProcessError>)
    requires
        pairs_wf(new_schedule.pairs()),
    ensures
        match spec_change_schedule_error(
            *old(vesting_type_data),
            signer,
            signer_is_authenticated,
            new_schedule,
        ) {
            Some(e) => r == Err::<(), ProcessError>(e) && *final(vesting_type_data) == *old(
                vesting_type_data,
            ),
            None => r is Ok && {
                &&& final(vesting_type_data).vesting_schedule == new_schedule
                &&& final(vesting_type_data).is_initialized == old(
                    vesting_type_data,
                ).is_initialized
                &&& final(vesting_type_data).locked_tokens_amount == old(
                    vesting_type_data,
                ).locked_tokens_amount
                &&& final(vesting_type_data).administrator == old(vesting_type_data).administrator
                &&& final(vesting_type_data).token_pool == old(vesting_type_data).token_pool
            },
        },
{
    if !signer_is_authenticated {
        return Err(ProcessError::MissingRequiredSignature);
    }
    if !vesting_type_data.is_initialized {
        return Err(ProcessError::Vesting(VestingError::NotInitialized));
    }
    if vesting_type_data.administrator != signer {
        return Err(ProcessError::Vesting(VestingError::NotAdministrator));
    }
    if !new_schedule.is_valid() {
        return Err(ProcessError::Vesting(VestingError::ScheduleIsNotValid));
    }

    vesting_type_data.vesting_schedule = new_schedule;
    Ok(())
}

/// The first failed check of a grant creation, if any.  The token-pool
/// balance comparison is exact: it is evaluated over unbounded integers.
pub open spec fn spec_create_vesting_account_error(
    vesting_type_data: VestingTypeAccount,
    vesting_data: VestingAccount,
    signer: AccountId,
    signer_is_authenticated: bool,
    is_rent_exempt: bool,
    token_account_owned_by_token_program: bool,
    token_account_mint: AccountId,
    token_pool_id: AccountId,
    token_pool_mint: AccountId,
    token_pool_amount: u64,
    total_tokens: u64,
) -> Option<ProcessError> {
    if !signer_is_authenticated {
        Some(ProcessError::MissingRequiredSignature)
    } else if vesting_data.is_initialized {
        Some(ProcessError::Vesting(VestingError::AlreadyInitialized))
    } else if !is_rent_exempt {
        Some(ProcessError::Vesting(VestingError::NotRentExempt))
    } else if !vesting_type_data.is_initialized {
        Some(ProcessError::UninitializedAccount)
    } else if vesting_type_data.administrator != signer {
        Some(ProcessError::Vesting(VestingError::NotAdministrator))
    } else if token_pool_id != vesting_type_data.token_pool {
        Some(ProcessError::IncorrectProgramId)
    } else if !token_account_owned_by_token_program {
        Some(ProcessError::IncorrectProgramId)
    } else if token_account_mint != token_pool_mint {
        Some(ProcessError::InvalidAccountData)
    } else if vesting_type_data.locked_tokens_amount + total_tokens > token_pool_amount {
        Some(ProcessError::Vesting(VestingError::NotEnoughTokensInPool))
    } else {
        None
    }
}

/// Creates a grant over `total_tokens` for a beneficiary, locking that
/// amount in the owning vesting type.  The pool must hold enough free
/// tokens beyond what is already locked.  On any error both records are
/// left unchanged.
pub fn create_vesting_account(
    vesting_type_data: &mut VestingTypeAccount,
    vesting_type_id: AccountId,
    vesting_data: &mut VestingAccount,
    signer: AccountId,
    signer_is_authenticated: bool,
    is_rent_exempt: bool,
    token_account_id: AccountId,
    token_account_owned_by_token_program: bool,
    token_account_mint: AccountId,
    token_pool_id: AccountId,
    token_pool_mint: AccountId,
    token_pool_amount: u64,
    total_tokens: u64,
) -> (r: Result<(), ProcessError>)
    requires
        (signer_is_authenticated && !old(vesting_data).is_initialized && is_rent_exempt && old(
            vesting_type_data,
        ).is_initialized && old(vesting_type_data).administrator == signer && token_pool_id == old(
            vesting_type_data,
        ).token_pool && token_account_owned_by_token_program && token_account_mint
            == token_pool_mint) ==> old(vesting_type_data).locked_tokens_amount + total_tokens
            <= u64::MAX,
    ensures
        match spec_create_vesting_account_error(
            *old(vesting_type_data),
            *old(vesting_data),
            signer,
            signer_is_authenticated,
            is_rent_exempt,
            token_account_owned_by_token_program,
            token_account_mint,
            token_pool_id,
            token_pool_mint,
            token_pool_amount,
            total_tokens,
        ) {
            Some(e) => r == Err::<(), ProcessError>(e) && *final(vesting_type_data) == *old(
                vesting_type_data,
            ) && *final(vesting_data) == *old(vesting_data),
            None => r is Ok && {
                &&& final(vesting_data).is_initialized == true
                &&& final(vesting_data).total_tokens == total_tokens
                &&& final(vesting_data).withdrawn_tokens == 0
                &&& final(vesting_data).token_account == token_account_id
                &&& final(vesting_data).vesting_type_account == vesting_type_id
                &&& final(vesting_type_data).locked_tokens_amount == old(
                    vesting_type_data,
                ).locked_tokens_amount + total_tokens
                &&& final(vesting_type_data).is_initialized == old(
                    vesting_type_data,
                ).is_initialized
                &&& final(vesting_type_data).vesting_schedule == old(
                    vesting_type_data,
                ).vesting_schedule
                &&& final(vesting_type_data).administrator == old(vesting_type_data).administrator
                &&& final(vesting_type_data).token_pool == old(vesting_type_data).token_pool
            },
        },
{
    if !signer_is_authenticated {
        return Err(ProcessError::MissingRequiredSignature);
    }
    if vesting_data.is_initialized {
        return Err(ProcessError::Vesting(VestingError::AlreadyInitialized));
    }
    if !is_rent_exempt {
        return Err(ProcessError::Vesting(VestingError::NotRentExempt));
    }
    if !vesting_type_data.is_initialized {
        return Err(ProcessError::UninitializedAccount);
    }
    if vesting_type_data.administrator != signer {
        return Err(ProcessError::Vesting(VestingError::NotAdministrator));
    }
    if token_pool_id != vesting_type_data.token_pool {
        return Err(ProcessError::IncorrectProgramId);
    }
    if !token_account_owned_by_token_program {
        return Err(ProcessError::IncorrectProgramId);
    }
    if token_account_mint != token_pool_mint {
        return Err(ProcessError::InvalidAccountData);
    }
    if vesting_type_data.locked_tokens_amount + total_tokens > token_pool_amount {
        return Err(ProcessError::Vesting(VestingError::NotEnoughTokensInPool));
    }

    vesting_data.is_initialized = true;
    vesting_data.total_tokens = total_tokens;
    vesting_data.withdrawn_tokens = 0;
    vesting_data.token_account = token_account_id;
    vesting_data.vesting_type_account = vesting_type_id;
    vesting_type_data.locked_tokens_amount = vesting_type_data.locked_tokens_amount + total_tokens;
    Ok(())
}

/// The first failed check of a withdrawal from a grant, if any.
pub open spec fn spec_withdraw_error(
    vesting_type_data: VestingTypeAccount,
    vesting_type_id: AccountId,
    vesting_data: VestingAccount,
    token_account_id: AccountId,
    token_pool_id: AccountId,
    pda_matches: bool,
    token_program_is_valid: bool,
    amount: u64,
    now: u64,
) -> Option<ProcessError> {
    if !vesting_type_data.is_initialized {
        Some(ProcessError::UninitializedAccount)
    } else if !vesting_data.is_initialized {
        Some(ProcessError::UninitializedAccount)
    } else if vesting_data.vesting_type_account != vesting_type_id {
        Some(ProcessError::InvalidAccountData)
    } else if token_account_id != vesting_data.token_account {
        Some(ProcessError::IncorrectProgramId)
    } else if token_pool_id != vesting_type_data.token_pool {
        Some(ProcessError::IncorrectProgramId)
    } else if !pda_matches {
        Some(ProcessError::IncorrectProgramId)
    } else if !token_program_is_valid {
        Some(ProcessError::IncorrectProgramId)
    } else if spec_withdrawable(
        vesting_data.total_tokens,
        vesting_data.withdrawn_tokens,
        vesting_type_data.vesting_schedule.pairs(),
        now,
    ) < amount {
        Some(ProcessError::Vesting(VestingError::NotEnoughUnlockedTokens))
    } else {
        None
    }
}

/// Withdraws `amount` unlocked tokens from a grant: the grant's withdrawn
/// total grows by `amount` and the owning vesting type's locked-token
/// counter shrinks by it.  The caller performs the actual token transfer
/// before persisting the records.  On any error both records are left
/// unchanged.
pub fn withdraw_from_vesting(
    vesting_type_data: &mut VestingTypeAccount,
    vesting_type_id: AccountId,
    vesting_data: &mut VestingAccount,
    token_account_id: AccountId,
    token_pool_id: AccountId,
    pda_matches: bool,
    token_program_is_valid: bool,
    amount: u64,
    now: u64,
) -> (r: Result<(), ProcessError>)
    requires
        pairs_wf(old(vesting_type_data).vesting_schedule.pairs()),
        sum_amounts(old(vesting_type_data).vesting_schedule.pairs()) <= u64::MAX,
        spec_withdraw_error(
            *old(vesting_type_data),
            vesting_type_id,
            *old(vesting_data),
            token_account_id,
            token_pool_id,
            pda_matches,
            token_program_is_valid,
            amount,
            now,
        ) is None ==> amount <= old(vesting_type_data).locked_tokens_amount,
    ensures
        match spec_withdraw_error(
            *old(vesting_type_data),
            vesting_type_id,
            *old(vesting_data),
            token_account_id,
            token_pool_id,
            pda_matches,
            token_program_is_valid,
            amount,
            now,
        ) {
            Some(e) => r == Err::<(), ProcessError>(e) && *final(vesting_type_data) == *old(
                vesting_type_data,
            ) && *final(vesting_data) == *old(vesting_data),
            None => r is Ok && {
                &&& final(vesting_data).withdrawn_tokens == old(vesting_data).withdrawn_tokens
                    + amount
                &&& final(vesting_data).is_initialized == old(vesting_data).is_initialized
                &&& final(vesting_data).total_tokens == old(vesting_data).total_tokens
                &&& final(vesting_data).token_account == old(vesting_data).token_account
                &&& final(vesting_data).vesting_type_account == old(
                    vesting_data,
                ).vesting_type_account
                &&& final(vesting_type_data).locked_tokens_amount == old(
                    vesting_type_data,
                ).locked_tokens_amount - amount
                &&& final(vesting_type_data).is_initialized == old(
                    vesting_type_data,
                ).is_initialized
                &&& final(vesting_type_data).vesting_schedule == old(
                    vesting_type_data,
                ).vesting_schedule
                &&& final(vesting_type_data).administrator == old(vesting_type_data).administrator
                &&& final(vesting_type_data).token_pool == old(vesting_type_data).token_pool
            },
        },
{
    if !vesting_type_data.is_initialized {
        return Err(ProcessError::UninitializedAccount);
    }
    if !vesting_data.is_initialized {
        return Err(ProcessError::UninitializedAccount);
    }
    if vesting_data.vesting_type_account != vesting_type_id {
        return Err(ProcessError::InvalidAccountData);
    }
    if token_account_id != vesting_data.token_account {
        return Err(ProcessError::IncorrectProgramId);
    }
    if token_pool_id != vesting_type_data.token_pool {
        return Err(ProcessError::IncorrectProgramId);
    }
    if !pda_matches {
        return Err(ProcessError::IncorrectProgramId);
    }
    if !token_program_is_valid {
        return Err(ProcessError::IncorrectProgramId);
    }
    let available_to_withdraw = vesting_data.calculate_available_to_withdraw_amount(
        &vesting_type_data.vesting_schedule,
        now,
    );
    if available_to_withdraw < amount {
        return Err(ProcessError::Vesting(VestingError::NotEnoughUnlockedTokens));
    }

    vesting_data.withdrawn_tokens = vesting_data.withdrawn_tokens + amount;
    vesting_type_data.locked_tokens_amount = vesting_type_data.locked_tokens_amount - amount;
    Ok(())
}

/// The first failed check of a withdrawal of excess pool tokens, if any.
/// The unlocked remainder is `token_pool_amount` minus the locked counter,
/// evaluated over unbounded integers.
pub open spec fn spec_withdraw_excessive_error(
    vesting_type_data: VestingTypeAccount,
    signer: AccountId,
    signer_is_authenticated: bool,
    vesting_type_owned_by_program: bool,
    token_pool_id: AccountId,
    token_pool_owned_by_token_program: bool,
    token_pool_is_initialized: bool,
    token_program_is_valid: bool,
    pda_matches: bool,
    token_pool_amount: u64,
    amount: u64,
) -> Option<ProcessError> {
    if !signer_is_authenticated {
        Some(ProcessError::MissingRequiredSignature)
    } else if !vesting_type_owned_by_program {
        Some(ProcessError::IncorrectProgramId)
    } else if !vesting_type_data.is_initialized {
        Some(ProcessError::UninitializedAccount)
    } else if vesting_type_data.administrator != signer {
        Some(ProcessError::Vesting(VestingError::NotAdministrator))
    } else if token_pool_id != vesting_type_data.token_pool {
        Some(ProcessError::IncorrectProgramId)
    } else if !token_pool_owned_by_token_program {
        Some(ProcessError::IncorrectProgramId)
    } else if !token_pool_is_initialized {
        Some(ProcessError::IncorrectProgramId)
    } else if !token_program_is_valid {
        Some(ProcessError::IncorrectProgramId)
    } else if amount > token_pool_amount - vesting_type_data.locked_tokens_amount {
        Some(ProcessError::Vesting(VestingError::NotEnoughUnlockedTokensInPool))
    } else if !pda_matches {
        Some(ProcessError::IncorrectProgramId)
    } else {
        None
    }
}

/// Decides whether the administrator may withdraw `amount` tokens that are
/// not locked by any grant from the pool; the caller performs the transfer
/// on success.  No record changes either way.
pub fn withdraw_excessive_from_pool(
    vesting_type_data: &VestingTypeAccount,
    signer: AccountId,
    signer_is_authenticated: bool,
    vesting_type_owned_by_program: bool,
    token_pool_id: AccountId,
    token_pool_owned_by_token_program: bool,
    token_pool_is_initialized: bool,
    token_program_is_valid: bool,
    pda_matches: bool,
    token_pool_amount: u64,
    amount: u64,
) -> (r: Result<(), ProcessError>)
    requires
        signer_is_authenticated ==> vesting_type_data.locked_tokens_amount <= token_pool_amount,
    ensures
        match spec_withdraw_excessive_error(
            *vesting_type_data,
            signer,
            signer_is_authenticated,
            vesting_type_owned_by_program,
            token_pool_id,
            token_pool_owned_by_token_program,
            token_pool_is_initialized,
            token_program_is_valid,
            pda_matches,
            token_pool_amount,
            amount,
        ) {
            Some(e) => r == Err::<(), ProcessError>(e),
            None => r is Ok,
        },
{
    if !signer_is_authenticated {
        return Err(ProcessError::MissingRequiredSignature);
    }
    let unlocked_tokens = token_pool_amount - vesting_type_data.locked_tokens_amount;
    if !vesting_type_owned_by_program {
        return Err(ProcessError::IncorrectProgramId);
    }
    if !vesting_type_data.is_initialized {
        return Err(ProcessError::UninitializedAccount);
    }
    if vesting_type_data.administrator != signer {
        return Err(ProcessError::Vesting(VestingError::NotAdministrator));
    }
    if token_pool_id != vesting_type_data.token_pool {
        return Err(ProcessError::IncorrectProgramId);
    }
    if !token_pool_owned_by_token_program {
        return Err(ProcessError::IncorrectProgramId);
    }
    if !token_pool_is_initialized {
        return Err(ProcessError::IncorrectProgramId);
    }
    if !token_program_is_valid {
        return Err(ProcessError::IncorrectProgramId);
    }
    if amount > unlocked_tokens {
        return Err(ProcessError::Vesting(VestingError::NotEnoughUnlockedTokensInPool));
    }
    if !pda_matches {
        return Err(ProcessError::IncorrectProgramId);
    }
    Ok(())
}

} // verus!
