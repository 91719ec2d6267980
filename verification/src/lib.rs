//! Time-released ownership of a fixed pool of fungible tokens.
//!
//! A schedule of piecewise-linear vesting tranches determines, for any point
//! in time, how many tokens of a fixed pool have unlocked.  An incremental
//! builder constructs and validates schedules; grant records compute the
//! amount a beneficiary may withdraw; and a quorum of approvers can jointly
//! terminate a grant early, returning its unvested remainder to the pool.

pub mod builder;
pub mod instruction;
pub mod protocol;
pub mod records;
pub mod schedule;
pub mod state;
pub mod storage;
pub mod wire;
