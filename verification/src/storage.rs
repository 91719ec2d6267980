//! The storage encodings of the persistent records.
//!
//! Each record occupies a fixed-width buffer: booleans as single bytes,
//! unsigned integers little endian, identities as 32 raw bytes, and the
//! schedule's pair list as a fixed 16-slot array preceded by the count of
//! slots in use, the unused slots holding the canonical empty slot.  Each
//! `encode_*` produces exactly this layout and each `decode_*` accepts
//! exactly the byte strings some record encodes to.

use vstd::prelude::*;
use vstd::slice::slice_index_get;

use crate::records::{
    AccountId, CurrentSigners, ProcessError, RequiredSigners, VestingAccount, VestingTypeAccount,
    MAX_SIGNERS,
};
use crate::schedule::{VestingSchedule, MAX_VESTINGS};
use crate::state::LinearVesting;
use crate::wire::{
    lemma_encode_pairs_push, le_val, push_u64_le, read_u64_le, spec_encode_pair,
    spec_encode_pairs, u64_le_bytes,
};

verus! {

/// A boolean as the storage holds it.
pub open spec fn bool_byte(b: bool) -> u8 {
    if b {
        1
    } else {
        0
    }
}

/// The 32 bytes of an identity: its four words little endian.
pub open spec fn spec_encode_id(id: AccountId) -> Seq<u8> {
    u64_le_bytes(id.w0) + u64_le_bytes(id.w1) + u64_le_bytes(id.w2) + u64_le_bytes(id.w3)
}

fn push_account_id(out: &mut Vec<u8>, id: AccountId)
    ensures
        final(out)@ == old(out)@ + spec_encode_id(id),
{
    push_u64_le(out, id.w0);
    push_u64_le(out, id.w1);
    push_u64_le(out, id.w2);
    push_u64_le(out, id.w3);
    proof {
        assert(out@ =~= old(out)@ + spec_encode_id(id));
    }
}

fn read_account_id(bytes: &[u8], pos: usize) -> (r: AccountId)
    requires
        pos + 32 <= bytes@.len(),
    ensures
        spec_encode_id(r) == bytes@.subrange(pos as int, pos as int + 32),
{
    let n_bytes = bytes.len();
    let w0 = read_u64_le(bytes, pos);
    let w1 = read_u64_le(bytes, pos + 8);
    let w2 = read_u64_le(bytes, pos + 16);
    let w3 = read_u64_le(bytes, pos + 24);
    let r = AccountId { w0, w1, w2, w3 };
    proof {
        assert(spec_encode_id(r) =~= bytes@.subrange(pos as int, pos as int + 32));
    }
    r
}

/// The canonical content of an unused schedule slot.
pub open spec fn padding_slot() -> (u64, LinearVesting) {
    (0u64, LinearVesting { start_time: 0, unlock_period: 0, unlock_count: 1 })
}

/// `n` unused schedule slots.
pub open spec fn spec_schedule_padding(n: nat) -> Seq<u8>
    decreases n,
{
    if n == 0 {
        Seq::empty()
    } else {
        spec_encode_pair(padding_slot()) + spec_schedule_padding((n - 1) as nat)
    }
}

proof fn lemma_schedule_padding_snoc(n: nat)
    ensures
        spec_schedule_padding(n + 1) == spec_schedule_padding(n) + spec_encode_pair(
            padding_slot(),
        ),
    decreases n,
{
    if n == 0 {
        assert(spec_schedule_padding(0) == Seq::<u8>::empty());
        assert(spec_schedule_padding(1) == spec_encode_pair(padding_slot()) + Seq::<u8>::empty());
        assert(spec_encode_pair(padding_slot()) + Seq::<u8>::empty() =~= Seq::<u8>::empty()
            + spec_encode_pair(padding_slot()));
    } else {
        lemma_schedule_padding_snoc((n - 1) as nat);
        assert(spec_encode_pair(padding_slot()) + (spec_schedule_padding((n - 1) as nat)
            + spec_encode_pair(padding_slot())) =~= (spec_encode_pair(padding_slot())
            + spec_schedule_padding((n - 1) as nat)) + spec_encode_pair(padding_slot()));
    }
}

/// The 409 bytes of a schedule: total token count, count of slots in use,
/// then the 16 slots, the unused ones canonical.
pub open spec fn spec_encode_schedule(s: VestingSchedule) -> Seq<u8>
    recommends
        s.pairs().len() <= MAX_VESTINGS,
{
    u64_le_bytes(s.spec_token_count()) + seq![s.pairs().len() as u8] + spec_encode_pairs(s.pairs())
        + spec_schedule_padding((MAX_VESTINGS - s.pairs().len()) as nat)
}

/// Whether the 409 bytes at `pos` hold a well-formed schedule: the in-use
/// count within the capacity, every in-use slot's tranche with at least one
/// unlock step, and every unused slot canonical.
pub open spec fn schedule_bytes_ok(bytes: Seq<u8>, pos: int) -> bool {
    &&& bytes[pos + 8] <= MAX_VESTINGS
    &&& forall|k: int| 0 <= k < MAX_VESTINGS ==> schedule_slot_ok(bytes, pos, k)
}

/// Whether slot `k` of the schedule at `pos` is acceptable.
pub open spec fn schedule_slot_ok(bytes: Seq<u8>, pos: int, k: int) -> bool {
    let at = pos + 9 + 25 * k;
    if k < bytes[pos + 8] {
        bytes[at + 24] >= 1
    } else {
        &&& le_val(bytes.subrange(at, at + 8)) == 0
        &&& le_val(bytes.subrange(at + 8, at + 16)) == 0
        &&& le_val(bytes.subrange(at + 16, at + 24)) == 0
        &&& bytes[at + 24] == 1
    }
}

fn push_schedule(out: &mut Vec<u8>, schedule: &VestingSchedule)
    requires
        schedule.pairs().len() <= MAX_VESTINGS,
    ensures
        final(out)@ == old(out)@ + spec_encode_schedule(*schedule),
{
    let ghost base = old(out)@;
    let pairs = schedule.vestings();
    let count = pairs.len();
    push_u64_le(out, schedule.token_count());
    out.push(count as u8);
    crate::wire::push_pairs(out, pairs);
    let ghost head = base + u64_le_bytes(schedule.spec_token_count()) + seq![
        schedule.pairs().len() as u8,
    ] + spec_encode_pairs(schedule.pairs());
    proof {
        assert(out@ =~= head + spec_schedule_padding(0));
    }
    let mut k = count;
    while k < MAX_VESTINGS
        invariant
            count <= k <= MAX_VESTINGS,
            out@ == head + spec_schedule_padding((k - count) as nat),
        decreases MAX_VESTINGS - k,
    {
        let ghost before = out@;
        push_u64_le(out, 0);
        push_u64_le(out, 0);
        push_u64_le(out, 0);
        out.push(1u8);
        proof {
            assert(out@ =~= before + spec_encode_pair(padding_slot()));
            lemma_schedule_padding_snoc((k - count) as nat);
            assert(out@ =~= head + spec_schedule_padding((k + 1 - count) as nat));
        }
        k = k + 1;
    }
    proof {
        assert(out@ =~= base + spec_encode_schedule(*schedule));
    }
}

fn read_schedule(bytes: &[u8], pos: usize) -> (r: Option<VestingSchedule>)
    requires
        pos + 409 <= bytes@.len(),
    ensures
        r is Some <==> schedule_bytes_ok(bytes@, pos as int),
        r matches Some(s) ==> s.wf() && spec_encode_schedule(s) == bytes@.subrange(
            pos as int,
            pos as int + 409,
        ),
{
    let n_bytes = bytes.len();
    let token_count = read_u64_le(bytes, pos);
    let count_byte = *slice_index_get(bytes, pos + 8);
    if count_byte as usize > MAX_VESTINGS {
        return None;
    }
    let count = count_byte as usize;
    let ghost slots0 = pos + 9 as int;

    let mut pairs: Vec<(u64, LinearVesting)> = Vec::new();
    let mut k: usize = 0;
    proof {
        assert(spec_encode_pairs(pairs@) =~= bytes@.subrange(slots0, slots0));
    }
    while k < count
        invariant
            k <= count,
            count == count_byte,
            count_byte == bytes@[pos as int + 8],
            count <= MAX_VESTINGS,
            pos + 409 <= bytes@.len(),
            bytes@.len() == n_bytes,
            slots0 == pos + 9,
            pairs@.len() == k,
            crate::state::pairs_wf(pairs@),
            spec_encode_pairs(pairs@) == bytes@.subrange(slots0, slots0 + 25 * k),
            forall|j: int| 0 <= j < k ==> schedule_slot_ok(bytes@, pos as int, j),
        decreases count - k,
    {
        let at = pos + 9 + 25 * k;
        let amount = read_u64_le(bytes, at);
        let start_time = read_u64_le(bytes, at + 8);
        let unlock_period = read_u64_le(bytes, at + 16);
        let unlock_count = *slice_index_get(bytes, at + 24);
        if unlock_count < 1 {
            proof {
                assert(!schedule_slot_ok(bytes@, pos as int, k as int));
            }
            return None;
        }
        let pair = (amount, LinearVesting { start_time, unlock_period, unlock_count });
        let ghost prefix = pairs@;
        pairs.push(pair);
        proof {
            lemma_encode_pairs_push(prefix, pair);
            assert(spec_encode_pair(pair) =~= bytes@.subrange(at as int, at as int + 25));
            assert(spec_encode_pairs(pairs@) =~= bytes@.subrange(slots0, slots0 + 25 * (k + 1)));
        }
        k = k + 1;
    }

    let mut j: usize = count;
    proof {
        assert(bytes@.subrange(slots0 + 25 * count, slots0 + 25 * count) =~= spec_schedule_padding(
            0,
        ));
    }
    while j < MAX_VESTINGS
        invariant
            count <= j <= MAX_VESTINGS,
            count == count_byte,
            count_byte == bytes@[pos as int + 8],
            pos + 409 <= bytes@.len(),
            bytes@.len() == n_bytes,
            slots0 == pos + 9,
            bytes@.subrange(slots0 + 25 * count, slots0 + 25 * j) == spec_schedule_padding(
                (j - count) as nat,
            ),
            forall|i: int| count <= i < j ==> schedule_slot_ok(bytes@, pos as int, i),
        decreases MAX_VESTINGS - j,
    {
        let at = pos + 9 + 25 * j;
        let amount = read_u64_le(bytes, at);
        let start_time = read_u64_le(bytes, at + 8);
        let unlock_period = read_u64_le(bytes, at + 16);
        let unlock_count = *slice_index_get(bytes, at + 24);
        if amount != 0 || start_time != 0 || unlock_period != 0 || unlock_count != 1 {
            proof {
                assert(!schedule_slot_ok(bytes@, pos as int, j as int));
            }
            return None;
        }
        proof {
            assert(spec_encode_pair(padding_slot()) =~= bytes@.subrange(at as int, at as int + 25));
            lemma_schedule_padding_snoc((j - count) as nat);
            assert(bytes@.subrange(slots0 + 25 * count, slots0 + 25 * (j + 1))
                =~= spec_schedule_padding((j + 1 - count) as nat));
        }
        j = j + 1;
    }

    let schedule = VestingSchedule::new(token_count, pairs);
    proof {
        assert(schedule_bytes_ok(bytes@, pos as int));
        assert(spec_encode_schedule(schedule) =~= bytes@.subrange(pos as int, pos as int + 409));
    }
    Some(schedule)
}

/// The 482 bytes of a vesting type record.
pub open spec fn spec_encode_vesting_type(record: VestingTypeAccount) -> Seq<u8>
    recommends
        record.vesting_schedule.pairs().len() <= MAX_VESTINGS,
{
    seq![bool_byte(record.is_initialized)] + spec_encode_schedule(record.vesting_schedule)
        + u64_le_bytes(record.locked_tokens_amount) + spec_encode_id(record.administrator)
        + spec_encode_id(record.token_pool)
}

/// Whether a byte string holds a well-formed vesting type record.
pub open spec fn vesting_type_bytes_ok(bytes: Seq<u8>) -> bool {
    &&& bytes.len() == 482
    &&& bytes[0] <= 1
    &&& schedule_bytes_ok(bytes, 1)
}

/// Serializes a vesting type record into its storage bytes.
pub fn encode_vesting_type(record: &VestingTypeAccount) -> (r: Vec<u8>)
    requires
        record.vesting_schedule.pairs().len() <= MAX_VESTINGS,
    ensures
        r@ == spec_encode_vesting_type(*record),
{
    let mut out: Vec<u8> = Vec::new();
    out.push(if record.is_initialized {
        1
    } else {
        0
    });
    push_schedule(&mut out, &record.vesting_schedule);
    push_u64_le(&mut out, record.locked_tokens_amount);
    push_account_id(&mut out, record.administrator);
    push_account_id(&mut out, record.token_pool);
    proof {
        assert(out@ =~= spec_encode_vesting_type(*record));
    }
    out
}

/// Parses storage bytes back into a vesting type record.  Exactly the
/// encodings of records are accepted: on success the result is the record
/// that encodes to the input, and every other input is rejected.
pub fn decode_vesting_type(bytes: &[u8]) -> (r: Result<VestingTypeAccount, ProcessError>)
    ensures
        r is Ok <==> vesting_type_bytes_ok(bytes@),
        r matches Ok(record) ==> record.vesting_schedule.wf() && spec_encode_vesting_type(record)
            == bytes@,
        r is Err ==> r == Err::<VestingTypeAccount, ProcessError>(ProcessError::InvalidAccountData),
{
    if bytes.len() != 482 {
        return Err(ProcessError::InvalidAccountData);
    }
    let flag = *slice_index_get(bytes, 0);
    if flag > 1 {
        return Err(ProcessError::InvalidAccountData);
    }
    let vesting_schedule = match read_schedule(bytes, 1) {
        None => {
            return Err(ProcessError::InvalidAccountData);
        },
        Some(schedule) => schedule,
    };
    let locked_tokens_amount = read_u64_le(bytes, 410);
    let administrator = read_account_id(bytes, 418);
    let token_pool = read_account_id(bytes, 450);
    let record = VestingTypeAccount {
        is_initialized: flag == 1,
        vesting_schedule,
        locked_tokens_amount,
        administrator,
        token_pool,
    };
    proof {
        assert(spec_encode_vesting_type(record) =~= bytes@);
    }
    Ok(record)
}

/// The 81 bytes of a grant record.
pub open spec fn spec_encode_vesting_account(record: VestingAccount) -> Seq<u8> {
    seq![bool_byte(record.is_initialized)] + u64_le_bytes(record.total_tokens) + u64_le_bytes(
        record.withdrawn_tokens,
    ) + spec_encode_id(record.token_account) + spec_encode_id(record.vesting_type_account)
}

/// Whether a byte string holds a well-formed grant record.
pub open spec fn vesting_account_bytes_ok(bytes: Seq<u8>) -> bool {
    bytes.len() == 81 && bytes[0] <= 1
}

/// Serializes a grant record into its storage bytes.
pub fn encode_vesting_account(record: &VestingAccount) -> (r: Vec<u8>)
    ensures
        r@ == spec_encode_vesting_account(*record),
{
    let mut out: Vec<u8> = Vec::new();
    out.push(if record.is_initialized {
        1
    } else {
        0
    });
    push_u64_le(&mut out, record.total_tokens);
    push_u64_le(&mut out, record.withdrawn_tokens);
    push_account_id(&mut out, record.token_account);
    push_account_id(&mut out, record.vesting_type_account);
    proof {
        assert(out@ =~= spec_encode_vesting_account(*record));
    }
    out
}

/// Parses storage bytes back into a grant record, accepting exactly the
/// encodings of records.
pub fn decode_vesting_account(bytes: &[u8]) -> (r: Result<VestingAccount, ProcessError>)
    ensures
        r is Ok <==> vesting_account_bytes_ok(bytes@),
        r matches Ok(record) ==> spec_encode_vesting_account(record) == bytes@,
        r is Err ==> r == Err::<VestingAccount, ProcessError>(ProcessError::InvalidAccountData),
{
    if bytes.len() != 81 {
        return Err(ProcessError::InvalidAccountData);
    }
    let flag = *slice_index_get(bytes, 0);
    if flag > 1 {
        return Err(ProcessError::InvalidAccountData);
    }
    let record = VestingAccount {
        is_initialized: flag == 1,
        total_tokens: read_u64_le(bytes, 1),
        withdrawn_tokens: read_u64_le(bytes, 9),
        token_account: read_account_id(bytes, 17),
        vesting_type_account: read_account_id(bytes, 49),
    };
    proof {
        assert(spec_encode_vesting_account(record) =~= bytes@);
    }
    Ok(record)
}

/// The identities of a list, 32 bytes each.
pub open spec fn spec_encode_ids(ids: Seq<AccountId>) -> Seq<u8>
    decreases ids.len(),
{
    if ids.len() == 0 {
        Seq::empty()
    } else {
        spec_encode_id(ids[0]) + spec_encode_ids(ids.drop_first())
    }
}

proof fn lemma_encode_ids_push(ids: Seq<AccountId>, id: AccountId)
    ensures
        spec_encode_ids(ids.push(id)) == spec_encode_ids(ids) + spec_encode_id(id),
    decreases ids.len(),
{
    if ids.len() == 0 {
        assert(ids.push(id)[0] == id);
        assert(ids.push(id).drop_first() =~= Seq::<AccountId>::empty());
        assert(spec_encode_ids(Seq::<AccountId>::empty()) == Seq::<u8>::empty());
        assert(spec_encode_ids(ids.push(id)) == spec_encode_id(id) + Seq::<u8>::empty());
        assert(spec_encode_ids(ids) == Seq::<u8>::empty());
        assert(spec_encode_id(id) + Seq::<u8>::empty() =~= Seq::<u8>::empty() + spec_encode_id(
            id,
        ));
    } else {
        assert(ids.push(id)[0] == ids[0]);
        assert(ids.push(id).drop_first() =~= ids.drop_first().push(id));
        lemma_encode_ids_push(ids.drop_first(), id);
        assert(spec_encode_ids(ids.push(id)) == spec_encode_id(ids[0]) + (spec_encode_ids(
            ids.drop_first(),
        ) + spec_encode_id(id)));
        assert(spec_encode_id(ids[0]) + (spec_encode_ids(ids.drop_first()) + spec_encode_id(id))
            =~= (spec_encode_id(ids[0]) + spec_encode_ids(ids.drop_first())) + spec_encode_id(id));
    }
}

/// The 387 bytes of a quorum policy record.
pub open spec fn spec_encode_required_signers(record: RequiredSigners) -> Seq<u8>
    recommends
        record.wf(),
{
    seq![bool_byte(record.is_initialized)] + spec_encode_ids(record.require_signers@) + seq![
        record.require_number,
        record.all_number,
    ] + spec_encode_id(record.vesting_type_account)
}

/// Whether a byte string holds a well-formed quorum policy record.
pub open spec fn required_signers_bytes_ok(bytes: Seq<u8>) -> bool {
    bytes.len() == 387 && bytes[0] <= 1
}

/// Serializes a quorum policy record into its storage bytes.
pub fn encode_required_signers(record: &RequiredSigners) -> (r: Vec<u8>)
    requires
        record.wf(),
    ensures
        r@ == spec_encode_required_signers(*record),
{
    let mut out: Vec<u8> = Vec::new();
    out.push(if record.is_initialized {
        1
    } else {
        0
    });
    let ghost head = out@;
    let mut k: usize = 0;
    proof {
        assert(out@ =~= head + spec_encode_ids(record.require_signers@.take(0)));
    }
    while k < record.require_signers.len()
        invariant
            k <= record.require_signers@.len(),
            out@ == head + spec_encode_ids(record.require_signers@.take(k as int)),
        decreases record.require_signers@.len() - k,
    {
        push_account_id(&mut out, record.require_signers[k]);
        proof {
            assert(record.require_signers@.take(k as int + 1) =~= record.require_signers@.take(
                k as int,
            ).push(record.require_signers@[k as int]));
            lemma_encode_ids_push(
                record.require_signers@.take(k as int),
                record.require_signers@[k as int],
            );
            assert(out@ =~= head + spec_encode_ids(record.require_signers@.take(k as int + 1)));
        }
        k = k + 1;
    }
    proof {
        assert(record.require_signers@.take(record.require_signers@.len() as int)
            =~= record.require_signers@);
    }
    out.push(record.require_number);
    out.push(record.all_number);
    push_account_id(&mut out, record.vesting_type_account);
    proof {
        assert(out@ =~= spec_encode_required_signers(*record));
    }
    out
}

/// Parses storage bytes back into a quorum policy record, accepting exactly
/// the encodings of well-formed records.
pub fn decode_required_signers(bytes: &[u8]) -> (r: Result<RequiredSigners, ProcessError>)
    ensures
        r is Ok <==> required_signers_bytes_ok(bytes@),
        r matches Ok(record) ==> record.wf() && spec_encode_required_signers(record) == bytes@,
        r is Err ==> r == Err::<RequiredSigners, ProcessError>(ProcessError::InvalidAccountData),
{
    let n_bytes = bytes.len();
    if n_bytes != 387 {
        return Err(ProcessError::InvalidAccountData);
    }
    let flag = *slice_index_get(bytes, 0);
    if flag > 1 {
        return Err(ProcessError::InvalidAccountData);
    }
    let mut require_signers: Vec<AccountId> = Vec::new();
    let mut k: usize = 0;
    proof {
        assert(spec_encode_ids(require_signers@) =~= bytes@.subrange(1, 1));
    }
    while k < MAX_SIGNERS
        invariant
            k <= MAX_SIGNERS,
            bytes@.len() == 387,
            require_signers@.len() == k,
            spec_encode_ids(require_signers@) == bytes@.subrange(1, 1 + 32 * k),
        decreases MAX_SIGNERS - k,
    {
        let id = read_account_id(bytes, 1 + 32 * k);
        let ghost prefix = require_signers@;
        require_signers.push(id);
        proof {
            lemma_encode_ids_push(prefix, id);
            assert(spec_encode_ids(require_signers@) =~= bytes@.subrange(1, 1 + 32 * (k + 1)));
        }
        k = k + 1;
    }
    let record = RequiredSigners {
        is_initialized: flag == 1,
        require_signers,
        require_number: *slice_index_get(bytes, 353),
        all_number: *slice_index_get(bytes, 354),
        vesting_type_account: read_account_id(bytes, 355),
    };
    proof {
        assert(spec_encode_required_signers(record) =~= bytes@);
    }
    Ok(record)
}

/// The flags of an approval bitmap, one byte each.
pub open spec fn spec_encode_flags(flags: Seq<bool>) -> Seq<u8>
    decreases flags.len(),
{
    if flags.len() == 0 {
        Seq::empty()
    } else {
        seq![bool_byte(flags[0])] + spec_encode_flags(flags.drop_first())
    }
}

proof fn lemma_encode_flags_push(flags: Seq<bool>, flag: bool)
    ensures
        spec_encode_flags(flags.push(flag)) == spec_encode_flags(flags) + seq![bool_byte(flag)],
    decreases flags.len(),
{
    if flags.len() == 0 {
        assert(flags.push(flag)[0] == flag);
        assert(flags.push(flag).drop_first() =~= Seq::<bool>::empty());
        assert(spec_encode_flags(Seq::<bool>::empty()) == Seq::<u8>::empty());
        assert(spec_encode_flags(flags.push(flag)) == seq![bool_byte(flag)] + Seq::<u8>::empty());
        assert(spec_encode_flags(flags) == Seq::<u8>::empty());
        assert(seq![bool_byte(flag)] + Seq::<u8>::empty() =~= Seq::<u8>::empty() + seq![
            bool_byte(flag),
        ]);
    } else {
        assert(flags.push(flag)[0] == flags[0]);
        assert(flags.push(flag).drop_first() =~= flags.drop_first().push(flag));
        lemma_encode_flags_push(flags.drop_first(), flag);
        assert(spec_encode_flags(flags.push(flag)) == seq![bool_byte(flags[0])] + (
        spec_encode_flags(flags.drop_first()) + seq![bool_byte(flag)]));
        assert(seq![bool_byte(flags[0])] + (spec_encode_flags(flags.drop_first()) + seq![
            bool_byte(flag),
        ]) =~= (seq![bool_byte(flags[0])] + spec_encode_flags(flags.drop_first())) + seq![
            bool_byte(flag),
        ]);
    }
}

/// The 44 bytes of a quorum progress record.
pub open spec fn spec_encode_current_signers(record: CurrentSigners) -> Seq<u8>
    recommends
        record.wf(),
{
    seq![bool_byte(record.is_initialized)] + spec_encode_flags(record.current_signers@)
        + spec_encode_id(record.vesting_account)
}

/// Whether a byte string holds a well-formed quorum progress record: every
/// flag byte must be a boolean.
pub open spec fn current_signers_bytes_ok(bytes: Seq<u8>) -> bool {
    &&& bytes.len() == 44
    &&& bytes[0] <= 1
    &&& forall|k: int| 0 <= k < MAX_SIGNERS ==> #[trigger] bytes[1 + k] <= 1
}

/// Serializes a quorum progress record into its storage bytes.
pub fn encode_current_signers(record: &CurrentSigners) -> (r: Vec<u8>)
    requires
        record.wf(),
    ensures
        r@ == spec_encode_current_signers(*record),
{
    let mut out: Vec<u8> = Vec::new();
    out.push(if record.is_initialized {
        1
    } else {
        0
    });
    let ghost head = out@;
    let mut k: usize = 0;
    proof {
        assert(out@ =~= head + spec_encode_flags(record.current_signers@.take(0)));
    }
    while k < record.current_signers.len()
        invariant
            k <= record.current_signers@.len(),
            out@ == head + spec_encode_flags(record.current_signers@.take(k as int)),
        decreases record.current_signers@.len() - k,
    {
        out.push(if record.current_signers[k] {
            1
        } else {
            0
        });
        proof {
            assert(record.current_signers@.take(k as int + 1) =~= record.current_signers@.take(
                k as int,
            ).push(record.current_signers@[k as int]));
            lemma_encode_flags_push(
                record.current_signers@.take(k as int),
                record.current_signers@[k as int],
            );
            assert(out@ =~= head + spec_encode_flags(record.current_signers@.take(k as int + 1)));
        }
        k = k + 1;
    }
    proof {
        assert(record.current_signers@.take(record.current_signers@.len() as int)
            =~= record.current_signers@);
    }
    push_account_id(&mut out, record.vesting_account);
    proof {
        assert(out@ =~= spec_encode_current_signers(*record));
    }
    out
}

/// Parses storage bytes back into a quorum progress record, accepting
/// exactly the encodings of well-formed records.
pub fn decode_current_signers(bytes: &[u8]) -> (r: Result<CurrentSigners, ProcessError>)
    ensures
        r is Ok <==> current_signers_bytes_ok(bytes@),
        r matches Ok(record) ==> record.wf() && spec_encode_current_signers(record) == bytes@,
        r is Err ==> r == Err::<CurrentSigners, ProcessError>(ProcessError::InvalidAccountData),
{
    let n_bytes = bytes.len();
    if n_bytes != 44 {
        return Err(ProcessError::InvalidAccountData);
    }
    let flag = *slice_index_get(bytes, 0);
    if flag > 1 {
        return Err(ProcessError::InvalidAccountData);
    }
    let mut current_signers: Vec<bool> = Vec::new();
    let mut k: usize = 0;
    proof {
        assert(spec_encode_flags(current_signers@) =~= bytes@.subrange(1, 1));
    }
    while k < MAX_SIGNERS
        invariant
            k <= MAX_SIGNERS,
            bytes@.len() == 44,
            current_signers@.len() == k,
            spec_encode_flags(current_signers@) == bytes@.subrange(1, 1 + k),
            forall|j: int| 0 <= j < k ==> #[trigger] bytes@[1 + j] <= 1,
        decreases MAX_SIGNERS - k,
    {
        let byte = *slice_index_get(bytes, 1 + k);
        if byte > 1 {
            return Err(ProcessError::InvalidAccountData);
        }
        let ghost prefix = current_signers@;
        current_signers.push(byte == 1);
        proof {
            lemma_encode_flags_push(prefix, byte == 1);
            assert(spec_encode_flags(current_signers@) =~= bytes@.subrange(1, 1 + (k + 1)));
        }
        k = k + 1;
    }
    let record = CurrentSigners {
        is_initialized: flag == 1,
        current_signers,
        vesting_account: read_account_id(bytes, 12),
    };
    proof {
        assert(spec_encode_current_signers(record) =~= bytes@);
    }
    Ok(record)
}

} // verus!
