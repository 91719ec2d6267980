//! The wire format of the instructions the system accepts.
//!
//! Instructions travel as fixed-width binary: a one-byte tag in declaration
//! order, unsigned integers little endian, and the schedule's pair list as a
//! fixed 16-slot array preceded by the count of slots in use.  `pack`
//! produces exactly this encoding and `unpack` accepts exactly the byte
//! strings that some instruction encodes to.

use vstd::prelude::*;
use vstd::slice::slice_index_get;

use crate::records::ProcessError;
use crate::schedule::MAX_VESTINGS;
use crate::state::LinearVesting;
use crate::wire::{
    push_pairs, push_u64_le, read_pairs, read_u64_le, spec_encode_pairs, u64_le_bytes,
};

verus! {

/// An instruction submitted to the system.  The tag byte of the wire format
/// follows the declaration order.
#[derive(Debug, Clone, PartialEq, Eq)]
pub enum VestingInstruction {
    /// Initializes a vesting type record with a schedule and takes over its
    /// token pool.
    CreateVestingType { token_count: u64, vesting_count: u8, vestings: Vec<(u64, LinearVesting)> },
    /// Creates a grant over `total_tokens` under a vesting type.
    CreateVestingAccount { total_tokens: u64 },
    /// Transfers `amount` unlocked tokens of a grant to its beneficiary.
    WithdrawFromVesting { amount: u64 },
    /// Transfers `amount` tokens not locked by any grant back to the
    /// administrator.
    WithdrawExcessiveFromPool { amount: u64 },
    /// Replaces a vesting type's schedule.
    ChangeVestingTypeSchedule {
        token_count: u64,
        vesting_count: u8,
        vestings: Vec<(u64, LinearVesting)>,
    },
    /// Derives the quorum policy from a multisig configuration.
    CreateMultisig,
    /// Records one approval of a grant's termination.
    SignDevesting,
}

/// The byte string an instruction travels as.
pub open spec fn spec_encode(instruction: VestingInstruction) -> Seq<u8> {
    match instruction {
        VestingInstruction::CreateVestingType { token_count, vesting_count, vestings } => seq![
            0u8,
        ] + u64_le_bytes(token_count) + seq![vesting_count] + spec_encode_pairs(vestings@),
        VestingInstruction::CreateVestingAccount { total_tokens } => seq![1u8] + u64_le_bytes(
            total_tokens,
        ),
        VestingInstruction::WithdrawFromVesting { amount } => seq![2u8] + u64_le_bytes(amount),
        VestingInstruction::WithdrawExcessiveFromPool { amount } => seq![3u8] + u64_le_bytes(
            amount,
        ),
        VestingInstruction::ChangeVestingTypeSchedule { token_count, vesting_count, vestings } => {
            seq![4u8] + u64_le_bytes(token_count) + seq![vesting_count] + spec_encode_pairs(
                vestings@,
            )
        },
        VestingInstruction::CreateMultisig => seq![5u8],
        VestingInstruction::SignDevesting => seq![6u8],
    }
}

/// Whether a byte string is the encoding of some instruction: a known tag
/// followed by exactly the fields that tag's variant carries.
pub open spec fn spec_decodes(bytes: Seq<u8>) -> bool {
    &&& bytes.len() >= 1
    &&& bytes[0] <= 6
    &&& (bytes[0] == 0 || bytes[0] == 4) ==> bytes.len() == 10 + 25 * MAX_VESTINGS
    &&& (bytes[0] == 1 || bytes[0] == 2 || bytes[0] == 3) ==> bytes.len() == 9
    &&& (bytes[0] == 5 || bytes[0] == 6) ==> bytes.len() == 1
}

impl VestingInstruction {
    /// The schedule-bearing variants carry exactly one slot for each of the
    /// 16 possible pairs.
    pub open spec fn wf(self) -> bool {
        match self {
            VestingInstruction::CreateVestingType { vestings, .. } => vestings@.len()
                == MAX_VESTINGS,
            VestingInstruction::ChangeVestingTypeSchedule { vestings, .. } => vestings@.len()
                == MAX_VESTINGS,
            _ => true,
        }
    }

    /// Serializes the instruction into its wire bytes.
    pub fn pack(&self) -> (r: Vec<u8>)
        requires
            self.wf(),
        ensures
            r@ == spec_encode(*self),
    {
        let mut out: Vec<u8> = Vec::new();
        match self {
            VestingInstruction::CreateVestingType { token_count, vesting_count, vestings } => {
                out.push(0u8);
                push_u64_le(&mut out, *token_count);
                out.push(*vesting_count);
                push_pairs(&mut out, vestings);
                proof {
                    assert(out@ =~= spec_encode(*self));
                }
            },
            VestingInstruction::CreateVestingAccount { total_tokens } => {
                out.push(1u8);
                push_u64_le(&mut out, *total_tokens);
                proof {
                    assert(out@ =~= spec_encode(*self));
                }
            },
            VestingInstruction::WithdrawFromVesting { amount } => {
                out.push(2u8);
                push_u64_le(&mut out, *amount);
                proof {
                    assert(out@ =~= spec_encode(*self));
                }
            },
            VestingInstruction::WithdrawExcessiveFromPool { amount } => {
                out.push(3u8);
                push_u64_le(&mut out, *amount);
                proof {
                    assert(out@ =~= spec_encode(*self));
                }
            },
            VestingInstruction::ChangeVestingTypeSchedule {
                token_count,
                vesting_count,
                vestings,
            } => {
                out.push(4u8);
                push_u64_le(&mut out, *token_count);
                out.push(*vesting_count);
                push_pairs(&mut out, vestings);
                proof {
                    assert(out@ =~= spec_encode(*self));
                }
            },
            VestingInstruction::CreateMultisig => {
                out.push(5u8);
                proof {
                    assert(out@ =~= spec_encode(*self));
                }
            },
            VestingInstruction::SignDevesting => {
                out.push(6u8);
                proof {
                    assert(out@ =~= spec_encode(*self));
                }
            },
        }
        out
    }

    /// Parses wire bytes back into an instruction.  Exactly the encodings of
    /// instructions are accepted: on success the result is the instruction
    /// that encodes to the input, and every other input is rejected.
    pub fn unpack(input: &[u8]) -> (r: Result<VestingInstruction, ProcessError>)
        ensures
            r is Ok <==> spec_decodes(input@),
            r matches Ok(instruction) ==> instruction.wf() && spec_encode(instruction) == input@,
            r is Err ==> r == Err::<VestingInstruction, ProcessError>(
                ProcessError::InvalidInstructionData,
            ),
    {
        let n = input.len();
        if n == 0 {
            return Err(ProcessError::InvalidInstructionData);
        }
        let tag = *slice_index_get(input, 0);
        if tag == 5 || tag == 6 {
            if n != 1 {
                return Err(ProcessError::InvalidInstructionData);
            }
            let instruction = if tag == 5 {
                VestingInstruction::CreateMultisig
            } else {
                VestingInstruction::SignDevesting
            };
            proof {
                assert(spec_encode(instruction) =~= input@);
            }
            Ok(instruction)
        } else if tag == 1 || tag == 2 || tag == 3 {
            if n != 9 {
                return Err(ProcessError::InvalidInstructionData);
            }
            let value = read_u64_le(input, 1);
            proof {
                assert(input@.subrange(1, 9) =~= input@.drop_first());
            }
            let instruction = if tag == 1 {
                VestingInstruction::CreateVestingAccount { total_tokens: value }
            } else if tag == 2 {
                VestingInstruction::WithdrawFromVesting { amount: value }
            } else {
                VestingInstruction::WithdrawExcessiveFromPool { amount: value }
            };
            proof {
                assert(spec_encode(instruction) =~= input@);
            }
            Ok(instruction)
        } else if tag == 0 || tag == 4 {
            if n != 10 + 25 * MAX_VESTINGS {
                return Err(ProcessError::InvalidInstructionData);
            }
            let token_count = read_u64_le(input, 1);
            let vesting_count = *slice_index_get(input, 9);
            let vestings = read_pairs(input, 10);
            let instruction = if tag == 0 {
                VestingInstruction::CreateVestingType { token_count, vesting_count, vestings }
            } else {
                VestingInstruction::ChangeVestingTypeSchedule {
                    token_count,
                    vesting_count,
                    vestings,
                }
            };
            proof {
                assert(spec_encode(instruction) =~= input@);
            }
            Ok(instruction)
        } else {
            return Err(ProcessError::InvalidInstructionData);
        }
    }
}

} // verus!
