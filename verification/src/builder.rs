//! The incremental, validating schedule builder.
//!
//! A builder is created over a target token count, grown through the
//! append-style operations, and consumed by [`ScheduleBuilder::build`], which
//! enforces that exactly the target amount was distributed over sorted,
//! non-overlapping, non-empty pairs.  Throughout its life a builder keeps
//! `used_tokens` equal to the sum of the paired amounts appended so far.

use vstd::prelude::*;

use crate::schedule::{tranche_last_exceeds, VestingSchedule, MAX_VESTINGS};
use vstd::arithmetic::div_mod::{lemma_div_is_ordered, lemma_div_multiples_vanish,
    lemma_div_nonincreasing, lemma_fundamental_div_mod, lemma_multiply_divide_lt};
use vstd::arithmetic::mul::lemma_mul_inequality;
use crate::state::{
    lemma_sum_amounts_drop_last, lemma_sum_amounts_push, no_zero_amounts, pairs_fit, pairs_sorted,
    pairs_wf, sum_amounts, tranche_last, LinearVesting, WithoutStart,
};

verus! {

/// A rejected builder operation or final validation.
#[derive(Debug, Clone, Copy)]
pub enum ScheduleBuilderError {
    /// The operation needs a preceding pair, but none was added yet.
    EmptyBuilder,
    /// The distributed tokens differ from the target; carries
    /// (expected tokens, used tokens).
    InvalidTokenAmountUsed((u64, u64)),
    /// Pairs were not appended in chronological order.
    VestingsNotSorted,
    /// Every pair must carry a non-zero token amount.
    ZeroTokens,
    /// More than the maximum number of pairs were appended.
    TooManyVestings,
    /// The initial unlock exceeds or equals the tokens being distributed.
    InitialUnlockTooBig,
    /// The start time does not precede the end time.
    InvalidTimeInterval,
}

impl PartialEq for ScheduleBuilderError {
    fn eq(&self, other: &Self) -> bool {
        match (self, other) {
            (ScheduleBuilderError::EmptyBuilder, ScheduleBuilderError::EmptyBuilder) => true,
            (
                ScheduleBuilderError::InvalidTokenAmountUsed(a),
                ScheduleBuilderError::InvalidTokenAmountUsed(b),
            ) => a.0 == b.0 && a.1 == b.1,
            (ScheduleBuilderError::VestingsNotSorted, ScheduleBuilderError::VestingsNotSorted) => {
                true
            },
            (ScheduleBuilderError::ZeroTokens, ScheduleBuilderError::ZeroTokens) => true,
            (ScheduleBuilderError::TooManyVestings, ScheduleBuilderError::TooManyVestings) => true,
            (
                ScheduleBuilderError::InitialUnlockTooBig,
                ScheduleBuilderError::InitialUnlockTooBig,
            ) => true,
            (
                ScheduleBuilderError::InvalidTimeInterval,
                ScheduleBuilderError::InvalidTimeInterval,
            ) => true,
            _ => false,
        }
    }
}

impl Eq for ScheduleBuilderError {

}

impl vstd::std_specs::cmp::PartialEqSpecImpl for ScheduleBuilderError {
    open spec fn obeys_eq_spec() -> bool {
        true
    }

    open spec fn eq_spec(&self, other: &Self) -> bool {
        *self == *other
    }
}

/// Incremental constructor for a [`VestingSchedule`].
#[derive(Debug, PartialEq, Eq)]
pub struct ScheduleBuilder {
    token_count: u64,
    used_tokens: u64,
    vestings: Vec<(u64, LinearVesting)>,
}

impl ScheduleBuilder {
    /// The pairs appended so far.
    pub closed spec fn pairs(self) -> Seq<(u64, LinearVesting)> {
        self.vestings@
    }

    /// The target token count the finished schedule must account for.
    pub closed spec fn spec_token_count(self) -> u64 {
        self.token_count
    }

    /// The running sum of the amounts appended so far.
    pub closed spec fn spec_used_tokens(self) -> u64 {
        self.used_tokens
    }

    /// The builder's running invariant: `used_tokens` equals the sum of the
    /// paired amounts, and every appended tranche is well formed with a
    /// representable final unlock time.
    pub open spec fn wf(self) -> bool {
        &&& self.spec_used_tokens() == sum_amounts(self.pairs())
        &&& pairs_wf(self.pairs())
        &&& pairs_fit(self.pairs())
    }

    /// The tokens not yet distributed, or zero once the target is exceeded.
    pub open spec fn spec_available_tokens(self) -> u64 {
        if self.spec_used_tokens() >= self.spec_token_count() {
            0
        } else {
            (self.spec_token_count() - self.spec_used_tokens()) as u64
        }
    }

    /// The amount an append operation attaches: the explicit amount if one is
    /// given, otherwise whatever is left of the target.
    pub open spec fn chosen_tokens(self, tokens: Option<u64>) -> u64 {
        match tokens {
            Some(t) => t,
            None => self.spec_available_tokens(),
        }
    }

    pub fn with_tokens(token_count: u64) -> (r: ScheduleBuilder)
        ensures
            r.pairs() == Seq::<(u64, LinearVesting)>::empty(),
            r.spec_token_count() == token_count,
            r.spec_used_tokens() == 0,
            r.wf(),
    {
        ScheduleBuilder { token_count, used_tokens: 0, vestings: Vec::new() }
    }

    fn available_tokens(&self) -> (r: u64)
        ensures
            r == self.spec_available_tokens(),
    {
        if self.used_tokens >= self.token_count {
            0
        } else {
            self.token_count - self.used_tokens
        }
    }

    fn remove_last(&mut self) -> (r: Option<(u64, LinearVesting)>)
        requires
            old(self).wf(),
        ensures
            final(self).wf(),
            final(self).spec_token_count() == old(self).spec_token_count(),
            old(self).pairs().len() == 0 ==> r is None && final(self).pairs() == old(
                self,
            ).pairs() && final(self).spec_used_tokens() == old(self).spec_used_tokens(),
            old(self).pairs().len() > 0 ==> {
                &&& r == Some(old(self).pairs().last())
                &&& final(self).pairs() == old(self).pairs().drop_last()
                &&& final(self).spec_used_tokens()
                    == old(self).spec_used_tokens() - old(self).pairs().last().0
            },
    {
        proof {
            if old(self).pairs().len() > 0 {
                lemma_sum_amounts_drop_last(old(self).pairs());
                crate::state::lemma_sum_amounts_nonneg(old(self).pairs().drop_last());
            }
        }
        let last = self.vestings.pop();
        match last {
            None => None,
            Some(x) => {
                self.used_tokens = self.used_tokens - x.0;
                Some(x)
            },
        }
    }

    /// Appends a pair; an omitted amount defaults to whatever is left of the
    /// target, supporting a final catch-all tranche.
    pub fn add(self, vesting: LinearVesting, tokens: Option<u64>) -> (r: ScheduleBuilder)
        requires
            self.wf(),
            vesting.wf(),
            vesting.fits(),
            self.spec_used_tokens() + self.chosen_tokens(tokens) <= u64::MAX,
        ensures
            r.spec_token_count() == self.spec_token_count(),
            r.spec_used_tokens() == self.spec_used_tokens() + self.chosen_tokens(tokens),
            r.pairs() == self.pairs().push((self.chosen_tokens(tokens), vesting)),
            r.wf(),
    {
        let tokens_val = match tokens {
            Some(t) => t,
            None => self.available_tokens(),
        };
        proof {
            lemma_sum_amounts_push(self.pairs(), (tokens_val, vesting));
        }
        let mut s = self;
        s.used_tokens = s.used_tokens + tokens_val;
        s.vestings.push((tokens_val, vesting));
        s
    }

    /// Appends a single-step cliff at `time`.
    pub fn cliff(self, time: u64, tokens: Option<u64>) -> (r: ScheduleBuilder)
        requires
            self.wf(),
            self.spec_used_tokens() + self.chosen_tokens(tokens) <= u64::MAX,
        ensures
            r.spec_token_count() == self.spec_token_count(),
            r.spec_used_tokens() == self.spec_used_tokens() + self.chosen_tokens(tokens),
            r.pairs() == self.pairs().push(
                (
                    self.chosen_tokens(tokens),
                    LinearVesting { start_time: time, unlock_period: 0, unlock_count: 1 },
                ),
            ),
            r.wf(),
    {
        proof {
            let tranche = LinearVesting { start_time: time, unlock_period: 0, unlock_count: 1u8 };
            assert(tranche.unlock_period * (tranche.unlock_count - 1) == 0) by (nonlinear_arith)
                requires tranche.unlock_period == 0;
        }
        self.add(LinearVesting::cliff(time), tokens)
    }

    /// Appends a tranche whose start lies `offset` after the final unlock of
    /// the previously appended tranche.
    pub fn offseted_by(self, offset: u64, vesting: WithoutStart, tokens: Option<u64>) -> (r:
        Result<ScheduleBuilder, ScheduleBuilderError>)
        requires
            self.wf(),
            self.pairs().len() > 0 ==> tranche_last(self.pairs().last().1) + offset <= u64::MAX,
            self.pairs().len() > 0 ==> vesting.anchored(
                ((tranche_last(self.pairs().last().1) + offset) as u64),
            ).fits(),
            self.pairs().len() > 0 ==> self.spec_used_tokens() + self.chosen_tokens(tokens)
                <= u64::MAX,
        ensures
            self.pairs().len() == 0 ==> r == Err::<ScheduleBuilder, ScheduleBuilderError>(
                ScheduleBuilderError::EmptyBuilder,
            ),
            self.pairs().len() > 0 ==> (r matches Ok(b) && {
                &&& b.spec_token_count() == self.spec_token_count()
                &&& b.spec_used_tokens() == self.spec_used_tokens() + self.chosen_tokens(tokens)
                &&& b.pairs() == self.pairs().push(
                    (
                        self.chosen_tokens(tokens),
                        vesting.anchored(((tranche_last(self.pairs().last().1) + offset) as u64)),
                    ),
                )
                &&& b.wf()
            }),
    {
        if self.vestings.len() == 0 {
            return Err(ScheduleBuilderError::EmptyBuilder);
        }
        let x = self.vestings[self.vestings.len() - 1];
        proof {
            assert(x == self.pairs().last());
        }
        Ok(self.add(
            LinearVesting::new(x.1.last() + offset, vesting.unlock_period, vesting.unlock_count),
            tokens,
        ))
    }

    /// Appends a tranche starting exactly one of its own periods after the
    /// previously appended tranche's final unlock.
    pub fn offseted(self, vesting: WithoutStart, tokens: Option<u64>) -> (r: Result<
        ScheduleBuilder,
        ScheduleBuilderError,
    >)
        requires
            self.wf(),
            self.pairs().len() > 0 ==> tranche_last(self.pairs().last().1) + vesting.unlock_period
                <= u64::MAX,
            self.pairs().len() > 0 ==> vesting.anchored(
                ((tranche_last(self.pairs().last().1) + vesting.unlock_period) as u64),
            ).fits(),
            self.pairs().len() > 0 ==> self.spec_used_tokens() + self.chosen_tokens(tokens)
                <= u64::MAX,
        ensures
            self.pairs().len() == 0 ==> r == Err::<ScheduleBuilder, ScheduleBuilderError>(
                ScheduleBuilderError::EmptyBuilder,
            ),
            self.pairs().len() > 0 ==> (r matches Ok(b) && {
                &&& b.spec_token_count() == self.spec_token_count()
                &&& b.spec_used_tokens() == self.spec_used_tokens() + self.chosen_tokens(tokens)
                &&& b.pairs() == self.pairs().push(
                    (
                        self.chosen_tokens(tokens),
                        vesting.anchored(
                            ((tranche_last(self.pairs().last().1) + vesting.unlock_period) as u64),
                        ),
                    ),
                )
                &&& b.wf()
            }),
    {
        let offset = vesting.unlock_period;
        self.offseted_by(offset, vesting, tokens)
    }

    /// Clips the tail of the pair list to end exactly at `end_time`: a no-op
    /// when the last tranche already ends at or before `end_time`, otherwise
    /// the last pair is replaced by a shortened linear tranche plus a final
    /// cliff at `end_time` carrying the remainder of its amount.  Either way
    /// the distributed tokens are conserved, and after a truncation the new
    /// final unlock falls exactly on `end_time`.
    pub fn ending_at(self, end_time: u64) -> (r: Result<ScheduleBuilder, ScheduleBuilderError>)
        requires
            self.wf(),
            self.pairs().len() > 0 ==> self.pairs().last().1.fits(),
            (self.pairs().len() > 0 && end_time < tranche_last(self.pairs().last().1))
                ==> self.pairs().last().1.start_time <= end_time,
        ensures
            self.pairs().len() == 0 ==> r == Err::<ScheduleBuilder, ScheduleBuilderError>(
                ScheduleBuilderError::EmptyBuilder,
            ),
            self.pairs().len() > 0 ==> (r matches Ok(b) && {
                &&& b.spec_token_count() == self.spec_token_count()
                &&& b.spec_used_tokens() == self.spec_used_tokens()
                &&& b.pairs() == truncate_pairs(self.pairs(), end_time)
                &&& b.wf()
            }),
            (self.pairs().len() > 0 && end_time < tranche_last(self.pairs().last().1))
                ==> (r matches Ok(b) && tranche_last(b.pairs().last().1) == end_time),
    {
        if self.vestings.len() == 0 {
            return Err(ScheduleBuilderError::EmptyBuilder);
        }
        let last_pair = self.vestings[self.vestings.len() - 1];
        proof {
            assert(last_pair == self.pairs().last());
        }
        if end_time >= last_pair.1.last() {
            Ok(self)
        } else {
            let amount = last_pair.0;
            let v = last_pair.1;
            // `end_time` lies strictly inside the tranche, so the tranche
            // spans more than one step and its period is positive.
            proof {
                assert(v.unlock_period > 0) by (nonlinear_arith)
                    requires v.unlock_period * (v.unlock_count - 1) > 0;
                lemma_multiply_divide_lt(
                    end_time - v.start_time,
                    v.unlock_period as int,
                    v.unlock_count - 1,
                );
            }
            let new_unlock_count: u8 = 1 + ((end_time - v.start_time) / v.unlock_period) as u8;
            assert(new_unlock_count < v.unlock_count);

            proof {
                let a = amount as int;
                let k = new_unlock_count as int;
                let c = v.unlock_count as int;
                assert(a * k >= 0) by (nonlinear_arith)
                    requires a >= 0 && k >= 0;
                assert(a * k <= a * c) by (nonlinear_arith)
                    requires a >= 0 && k <= c;
                lemma_div_is_ordered(0, a * k, c);
                lemma_div_is_ordered(a * k, a * c, c);
                assert(a * c == c * a) by (nonlinear_arith);
                lemma_div_multiples_vanish(a, c);
                assert(a * k <= 0xffff_ffff_ffff_ffff * 255) by (nonlinear_arith)
                    requires a <= 0xffff_ffff_ffff_ffff && 0 <= k <= 255;
            }
            let linear_tokens: u64 = ((amount as u128) * (new_unlock_count as u128)
                / (v.unlock_count as u128)) as u64;
            let cliff_tokens = amount - linear_tokens;

            let mut s = self;
            let removed = s.remove_last();
            proof {
                assert(removed == Some(last_pair));
                // The shortened tranche keeps the start and period but fewer
                // steps, so its final unlock time still fits.
                let shortened = LinearVesting {
                    start_time: v.start_time,
                    unlock_period: v.unlock_period,
                    unlock_count: new_unlock_count,
                };
                lemma_mul_inequality(
                    new_unlock_count - 1,
                    v.unlock_count - 1,
                    v.unlock_period as int,
                );
                assert(v.unlock_period * (new_unlock_count - 1) == (new_unlock_count - 1)
                    * v.unlock_period) by (nonlinear_arith);
                assert(v.unlock_period * (v.unlock_count - 1) == (v.unlock_count - 1)
                    * v.unlock_period) by (nonlinear_arith);
                assert(shortened.fits());
            }
            let b = s.add(
                LinearVesting::new(v.start_time, v.unlock_period, new_unlock_count),
                Some(linear_tokens),
            ).cliff(end_time, Some(cliff_tokens));
            proof {
                let tail = (
                    cliff_tokens,
                    LinearVesting { start_time: end_time, unlock_period: 0, unlock_count: 1u8 },
                );
                assert(b.pairs().last() == tail);
                assert(tail.1.unlock_period * (tail.1.unlock_count - 1) == 0) by (nonlinear_arith)
                    requires tail.1.unlock_period == 0;
                assert(tranche_last(tail.1) == end_time);
            }
            Ok(b)
        }
    }

    /// The pair list a legacy description appends before the final clipping:
    /// an optional initial cliff at `start_time`, a cliff bucket at `cliff`
    /// carrying the steps already elapsed, and the remaining linear ramp
    /// starting on the unlock grid.
    pub open spec fn legacy_pairs(
        self,
        start_time: u64,
        end_time: u64,
        unlock_period: u64,
        cliff: u64,
        initial_unlock_tokens: u64,
        tokens: Option<u64>,
    ) -> Seq<(u64, LinearVesting)> {
        let toks = self.chosen_tokens(tokens);
        let remaining0 = toks - initial_unlock_tokens;
        let n = legacy_total_unlocks(start_time, end_time, unlock_period);
        let elapsed_steps = legacy_unlocks_before_cliff(start_time, cliff, unlock_period);
        let at_cliff = remaining0 * elapsed_steps / n;
        let remaining = remaining0 - at_cliff;
        let with_initial = if initial_unlock_tokens > 0 {
            self.pairs().push(
                (
                    initial_unlock_tokens,
                    LinearVesting { start_time, unlock_period: 0, unlock_count: 1 },
                ),
            )
        } else {
            self.pairs()
        };
        with_initial.push(
            (
                at_cliff as u64,
                LinearVesting { start_time: cliff, unlock_period: 0, unlock_count: 1 },
            ),
        ).push((remaining as u64, legacy_ramp(start_time, cliff, unlock_period, n)))
    }

    /// Converts the older single-cliff-plus-ramp description into the tranche
    /// list: an optional initial cliff at `start_time`, a proportional cliff
    /// bucket at `cliff` for the steps already elapsed by then, the remaining
    /// linear ramp from the first period boundary at or after `cliff`, and a
    /// final clipping to end exactly at `end_time`.  The cliff must lie
    /// within the vesting interval.
    pub fn legacy(
        self,
        start_time: u64,
        end_time: u64,
        unlock_period: u64,
        cliff: u64,
        initial_unlock_tokens: u64,
        tokens: Option<u64>,
    ) -> (r: Result<ScheduleBuilder, ScheduleBuilderError>)
        requires
            self.wf(),
            ({
                let proceeds = start_time < end_time && initial_unlock_tokens
                    < self.chosen_tokens(tokens);
                let n = legacy_total_unlocks(start_time, end_time, unlock_period);
                let ramp = legacy_ramp(start_time, cliff, unlock_period, n);
                &&& proceeds ==> unlock_period > 0
                &&& proceeds ==> start_time <= cliff <= end_time
                &&& proceeds ==> n <= 255
                &&& proceeds ==> self.spec_used_tokens() + self.chosen_tokens(tokens) <= u64::MAX
                &&& proceeds ==> legacy_ramp_start(start_time, cliff, unlock_period) <= u64::MAX
                &&& proceeds ==> tranche_last(ramp) <= u64::MAX
                &&& (proceeds && end_time < tranche_last(ramp)) ==> ramp.start_time <= end_time
            }),
        ensures
            start_time >= end_time ==> r == Err::<ScheduleBuilder, ScheduleBuilderError>(
                ScheduleBuilderError::InvalidTimeInterval,
            ),
            (start_time < end_time && initial_unlock_tokens >= self.chosen_tokens(tokens)) ==> r
                == Err::<ScheduleBuilder, ScheduleBuilderError>(
                ScheduleBuilderError::InitialUnlockTooBig,
            ),
            (start_time < end_time && initial_unlock_tokens < self.chosen_tokens(tokens)) ==> (
            r matches Ok(b) && {
                &&& b.spec_token_count() == self.spec_token_count()
                &&& b.spec_used_tokens() == self.spec_used_tokens() + self.chosen_tokens(tokens)
                &&& b.pairs() == truncate_pairs(
                    self.legacy_pairs(
                        start_time,
                        end_time,
                        unlock_period,
                        cliff,
                        initial_unlock_tokens,
                        tokens,
                    ),
                    end_time,
                )
                &&& b.wf()
            }),
    {
        if start_time >= end_time {
            return Err(ScheduleBuilderError::InvalidTimeInterval);
        }
        let tokens_chosen = match tokens {
            Some(t) => t,
            None => self.available_tokens(),
        };
        if initial_unlock_tokens >= tokens_chosen {
            return Err(ScheduleBuilderError::InitialUnlockTooBig);
        }

        let ghost n = legacy_total_unlocks(start_time, end_time, unlock_period);
        proof {
            // The span is positive, so at least two unlock steps remain:
            // either a whole period fits before `end_time`, or the remainder
            // step does.
            lemma_fundamental_div_mod((end_time - start_time) as int, unlock_period as int);
            if (end_time - start_time) % (unlock_period as int) == 0 {
                assert((end_time - start_time) as int == (unlock_period as int) * (((end_time
                    - start_time) as int) / (unlock_period as int)));
                assert(((end_time - start_time) as int) / (unlock_period as int) > 0)
                    by (nonlinear_arith)
                    requires
                        (end_time - start_time) as int == (unlock_period as int) * (((end_time
                            - start_time) as int) / (unlock_period as int)),
                        (end_time - start_time) as int > 0,
                        unlock_period > 0,
                ;
            } else {
                lemma_div_is_ordered(0, (end_time - start_time) as int, unlock_period as int);
            }
            assert(2 <= n <= 255);
        }

        let builder = if initial_unlock_tokens > 0 {
            self.cliff(start_time, Some(initial_unlock_tokens))
        } else {
            self
        };
        let remaining0: u64 = tokens_chosen - initial_unlock_tokens;

        let mut total_linear_unlocks: u8 = 1 + ((end_time - start_time) / unlock_period) as u8;
        if (end_time - start_time) % unlock_period != 0 {
            total_linear_unlocks = total_linear_unlocks + 1;
        }
        proof {
            assert(total_linear_unlocks == n);
        }

        let elapsed: u64 = cliff - start_time;
        proof {
            // No more steps have elapsed by the cliff than the whole span
            // holds.
            lemma_div_is_ordered(
                elapsed as int,
                (end_time - start_time) as int,
                unlock_period as int,
            );
        }
        let unlocks_before_cliff: u8 = 1 + (elapsed / unlock_period) as u8;
        proof {
            assert(unlocks_before_cliff == legacy_unlocks_before_cliff(
                start_time,
                cliff,
                unlock_period,
            ));
            assert(unlocks_before_cliff <= total_linear_unlocks);
            let a = remaining0 as int;
            let u = unlocks_before_cliff as int;
            let t = total_linear_unlocks as int;
            assert(a * u >= 0) by (nonlinear_arith)
                requires a >= 0 && u >= 0;
            assert(a * u <= a * t) by (nonlinear_arith)
                requires a >= 0 && u <= t;
            lemma_div_is_ordered(0, a * u, t);
            lemma_div_is_ordered(a * u, a * t, t);
            assert(a * t == t * a) by (nonlinear_arith);
            lemma_div_multiples_vanish(a, t);
            assert(a * u <= 0xffff_ffff_ffff_ffff * 255) by (nonlinear_arith)
                requires a <= 0xffff_ffff_ffff_ffff && 0 <= u <= 255;
        }
        let tokens_at_cliff: u64 = ((remaining0 as u128) * (unlocks_before_cliff as u128)
            / (total_linear_unlocks as u128)) as u64;
        let remaining_tokens: u64 = remaining0 - tokens_at_cliff;
        let builder = builder.cliff(cliff, Some(tokens_at_cliff));

        let elapsed_in_period: u64 = elapsed % unlock_period;
        let first_linear_unlock: u64 = if elapsed_in_period == 0 {
            cliff
        } else {
            cliff + (unlock_period - elapsed_in_period)
        };
        proof {
            assert(first_linear_unlock == legacy_ramp_start(start_time, cliff, unlock_period));
        }
        let b = builder.add(
            LinearVesting::new(
                first_linear_unlock,
                unlock_period,
                total_linear_unlocks - unlocks_before_cliff,
            ),
            Some(remaining_tokens),
        );
        proof {
            assert(b.pairs().last() == (self.legacy_pairs(
                start_time,
                end_time,
                unlock_period,
                cliff,
                initial_unlock_tokens,
                tokens,
            )).last());
            assert(b.pairs() =~= self.legacy_pairs(
                start_time,
                end_time,
                unlock_period,
                cliff,
                initial_unlock_tokens,
                tokens,
            ));
        }
        b.ending_at(end_time)
    }

    /// Final validation: exactly the target amount distributed, at most
    /// [`MAX_VESTINGS`] pairs, sorted and non-overlapping, no zero amounts.
    /// The first violated condition decides the error.  A built schedule's
    /// paired amounts therefore sum to its token count exactly.
    pub fn build(self) -> (r: Result<VestingSchedule, ScheduleBuilderError>)
        requires
            self.wf(),
        ensures
            self.spec_used_tokens() != self.spec_token_count() ==> r == Err::<
                VestingSchedule,
                ScheduleBuilderError,
            >(
                ScheduleBuilderError::InvalidTokenAmountUsed(
                    (self.spec_token_count(), self.spec_used_tokens()),
                ),
            ),
            (self.spec_used_tokens() == self.spec_token_count() && self.pairs().len()
                > MAX_VESTINGS) ==> r == Err::<VestingSchedule, ScheduleBuilderError>(
                ScheduleBuilderError::TooManyVestings,
            ),
            (self.spec_used_tokens() == self.spec_token_count() && self.pairs().len()
                <= MAX_VESTINGS && !pairs_sorted(self.pairs())) ==> r == Err::<
                VestingSchedule,
                ScheduleBuilderError,
            >(ScheduleBuilderError::VestingsNotSorted),
            (self.spec_used_tokens() == self.spec_token_count() && self.pairs().len()
                <= MAX_VESTINGS && pairs_sorted(self.pairs()) && !no_zero_amounts(self.pairs()))
                ==> r == Err::<VestingSchedule, ScheduleBuilderError>(
                ScheduleBuilderError::ZeroTokens,
            ),
            (self.spec_used_tokens() == self.spec_token_count() && self.pairs().len()
                <= MAX_VESTINGS && pairs_sorted(self.pairs()) && no_zero_amounts(self.pairs()))
                ==> (r matches Ok(s) && {
                &&& s.pairs() == self.pairs()
                &&& s.spec_token_count() == self.spec_token_count()
                &&& sum_amounts(s.pairs()) == s.spec_token_count()
                &&& pairs_fit(s.pairs())
                &&& s.spec_is_valid()
                &&& s.wf()
            }),
    {
        if self.token_count != self.used_tokens {
            return Err(
                ScheduleBuilderError::InvalidTokenAmountUsed((self.token_count, self.used_tokens)),
            );
        }

        if self.vestings.len() > MAX_VESTINGS {
            return Err(ScheduleBuilderError::TooManyVestings);
        }

        let ghost pairs = self.pairs();
        let n = self.vestings.len();
        let mut i: usize = 1;
        while i < n
            invariant
                1 <= i,
                i <= n || n == 0,
                n == pairs.len(),
                n <= MAX_VESTINGS,
                self.pairs() == pairs,
                self.spec_used_tokens() == self.spec_token_count(),
                pairs_wf(pairs),
                forall|j: int|
                    0 <= j < i - 1 ==> tranche_last(#[trigger] pairs[j].1)
                        <= pairs[j + 1].1.start_time,
            decreases n - i,
        {
            if tranche_last_exceeds(&self.vestings[i - 1].1, self.vestings[i].1.start_time) {
                proof {
                    assert(tranche_last(pairs[i - 1].1) > pairs[i as int].1.start_time);
                }
                return Err(ScheduleBuilderError::VestingsNotSorted);
            }
            i = i + 1;
        }

        let mut k: usize = 0;
        while k < n
            invariant
                k <= n,
                n == pairs.len(),
                n <= MAX_VESTINGS,
                self.pairs() == pairs,
                self.spec_used_tokens() == self.spec_token_count(),
                pairs_sorted(pairs),
                forall|j: int| 0 <= j < k ==> (#[trigger] pairs[j]).0 != 0,
            decreases n - k,
        {
            if self.vestings[k].0 == 0 {
                return Err(ScheduleBuilderError::ZeroTokens);
            }
            k = k + 1;
        }

        Ok(VestingSchedule::new(self.token_count, self.vestings))
    }
}

/// The number of linear unlock steps a legacy description spans: a
/// period-count ceiling of `(end_time - start_time) / unlock_period`, plus
/// the step at `start_time` itself.
pub open spec fn legacy_total_unlocks(start_time: u64, end_time: u64, unlock_period: u64) -> int
    recommends
        unlock_period > 0,
        start_time < end_time,
{
    let q = 1 + (end_time - start_time) / (unlock_period as int);
    if (end_time - start_time) % (unlock_period as int) != 0 {
        q + 1
    } else {
        q
    }
}

/// The number of unlock steps a legacy description counts as elapsed by
/// `cliff`: the step at `start_time` itself plus one per whole period since.
pub open spec fn legacy_unlocks_before_cliff(start_time: u64, cliff: u64, unlock_period: u64) -> int
    recommends
        unlock_period > 0,
        start_time <= cliff,
{
    1 + (cliff - start_time) / (unlock_period as int)
}

/// The first boundary of the schedule's unlock grid at or after `cliff`:
/// the grid is anchored at `start_time`, one boundary per period.
pub open spec fn legacy_ramp_start(start_time: u64, cliff: u64, unlock_period: u64) -> int
    recommends
        unlock_period > 0,
        start_time <= cliff,
{
    let elapsed = cliff - start_time;
    if elapsed % (unlock_period as int) == 0 {
        cliff as int
    } else {
        cliff + unlock_period - elapsed % (unlock_period as int)
    }
}

/// The linear tranche a legacy description appends after its cliff bucket:
/// it starts at the first period boundary at or after `cliff` and carries
/// the steps not already elapsed by `cliff` (at least one).
pub open spec fn legacy_ramp(
    start_time: u64,
    cliff: u64,
    unlock_period: u64,
    total_unlocks: int,
) -> LinearVesting
    recommends
        unlock_period > 0,
        start_time <= cliff,
        2 <= total_unlocks <= 255,
{
    let steps_left = total_unlocks - legacy_unlocks_before_cliff(start_time, cliff, unlock_period);
    LinearVesting {
        start_time: legacy_ramp_start(start_time, cliff, unlock_period) as u64,
        unlock_period,
        unlock_count: if steps_left >= 1 {
            steps_left as u8
        } else {
            1u8
        },
    }
}

/// The pair list produced by clipping the tail of `pairs` to end at
/// `end_time`: unchanged when the last tranche already ends by then, and
/// otherwise the last pair replaced by a shortened linear tranche of
/// `1 + (end_time - start) / period` steps with a proportionally scaled
/// amount, plus a cliff at `end_time` carrying the remainder.
pub open spec fn truncate_pairs(pairs: Seq<(u64, LinearVesting)>, end_time: u64) -> Seq<
    (u64, LinearVesting),
>
    recommends
        pairs.len() > 0,
{
    let amount = pairs.last().0;
    let v = pairs.last().1;
    if end_time >= tranche_last(v) {
        pairs
    } else {
        let k = 1 + (end_time - v.start_time) / (v.unlock_period as int);
        let linear = (amount * k) / (v.unlock_count as int);
        pairs.drop_last().push(
            (
                linear as u64,
                LinearVesting {
                    start_time: v.start_time,
                    unlock_period: v.unlock_period,
                    unlock_count: k as u8,
                },
            ),
        ).push(
            (
                (amount - linear) as u64,
                LinearVesting { start_time: end_time, unlock_period: 0, unlock_count: 1 },
            ),
        )
    }
}

} // verus!
