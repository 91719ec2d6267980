//! The vesting schedule: an ordered, capacity-bounded list of
//! (token amount, tranche) pairs plus the total token count they are meant to
//! account for.
//!
//! The aggregate unlock computation walks the pairs in order and stops at the
//! first tranche that has not started; each active tranche contributes its
//! completed-steps fraction of its paired amount, rounded down.  The rounding
//! is per tranche, so the aggregate may fall short of the exact fraction by
//! up to one unit per active tranche, always in favour of the pool.

use vstd::prelude::*;
use vstd::arithmetic::div_mod::{lemma_multiply_divide_lt};

use crate::builder::ScheduleBuilder;
use crate::state::{
    no_zero_amounts, pairs_fit, pairs_sorted, pairs_wf, schedule_available, sum_amounts,
    tranche_last, tranche_steps, tranche_unlocked, LinearVesting,
};
use crate::state::{lemma_sum_amounts_nonneg, lemma_tranche_unlocked_bounds};

verus! {

/// The largest number of pairs a schedule may hold.
pub const MAX_VESTINGS: usize = 16;

/// An ordered list of at most [`MAX_VESTINGS`] (token amount, tranche) pairs,
/// plus the total token count the pairs are meant to sum to.
///
/// Construction alone does not force the paired amounts to sum to
/// `token_count`; that check belongs to [`ScheduleBuilder::build`].
#[derive(Debug, Clone, PartialEq, Eq)]
pub struct VestingSchedule {
    token_count: u64,
    vestings: Vec<(u64, LinearVesting)>,
}

impl VestingSchedule {
    /// The schedule's pair list, as a mathematical sequence.
    pub closed spec fn pairs(self) -> Seq<(u64, LinearVesting)> {
        self.vestings@
    }

    /// The total token count the schedule is meant to account for.
    pub closed spec fn spec_token_count(self) -> u64 {
        self.token_count
    }

    /// Structural well-formedness: the capacity bound holds and every tranche
    /// has at least one unlock step.  Every constructor establishes this.
    pub open spec fn wf(self) -> bool {
        self.pairs().len() <= MAX_VESTINGS && pairs_wf(self.pairs())
    }

    /// The explicit validity predicate re-checked on schedules received from
    /// outside: sorted, non-overlapping pairs, no zero amounts, the capacity
    /// bound, and every tranche's final unlock time representable as a `u64`
    /// time.
    pub open spec fn spec_is_valid(self) -> bool {
        &&& self.pairs().len() <= MAX_VESTINGS
        &&& pairs_sorted(self.pairs())
        &&& no_zero_amounts(self.pairs())
        &&& pairs_fit(self.pairs())
    }

    pub fn new(total_tokens: u64, vestings: Vec<(u64, LinearVesting)>) -> (r: VestingSchedule)
        requires
            vestings@.len() <= MAX_VESTINGS,
            pairs_wf(vestings@),
        ensures
            r.pairs() == vestings@,
            r.spec_token_count() == total_tokens,
            r.wf(),
    {
        VestingSchedule { token_count: total_tokens, vestings }
    }

    /// Starts an incremental builder for a schedule over `total_tokens`.
    pub fn with_tokens(total_tokens: u64) -> (r: ScheduleBuilder)
        ensures
            r.pairs() == Seq::<(u64, LinearVesting)>::empty(),
            r.spec_token_count() == total_tokens,
            r.spec_used_tokens() == 0,
            r.wf(),
    {
        ScheduleBuilder::with_tokens(total_tokens)
    }

    /// The token amount unlocked at `time`, aggregated over all tranches that
    /// have started, each contribution rounded down independently.
    pub fn available(&self, time: u64) -> (r: u64)
        requires
            pairs_wf(self.pairs()),
            sum_amounts(self.pairs()) <= u64::MAX,
        ensures
            r == schedule_available(self.pairs(), time as int),
    {
        let ghost pairs = self.pairs();
        let n = self.vestings.len();
        let mut tokens: u64 = 0;
        let mut i: usize = 0;
        proof {
            assert(pairs.skip(0) =~= pairs);
        }
        while i < n
            invariant_except_break
                i <= n,
                n == pairs.len(),
                self.pairs() == pairs,
                pairs_wf(pairs),
                sum_amounts(pairs) <= u64::MAX,
                tokens + schedule_available(pairs.skip(i as int), time as int)
                    == schedule_available(pairs, time as int),
                tokens + sum_amounts(pairs.skip(i as int)) <= sum_amounts(pairs),
                tokens >= 0,
            ensures
                tokens == schedule_available(pairs, time as int),
            decreases n - i,
        {
            let tv = self.vestings[i];
            proof {
                assert(pairs.skip(i as int)[0] == pairs[i as int]);
                assert(pairs.skip(i as int).drop_first() =~= pairs.skip(i as int + 1));
            }
            if tv.1.start_time > time {
                proof {
                    assert(schedule_available(pairs.skip(i as int), time as int) == 0);
                }
                break;
            }
            let portion = tranche_amount_unlocked(tv.0, tv.1, time);
            proof {
                lemma_tranche_unlocked_bounds(tv.0, tv.1, time as int);
                lemma_sum_amounts_nonneg(pairs.skip(i as int + 1));
            }
            tokens = tokens + portion;
            i = i + 1;
        }
        tokens
    }

    pub fn total_tokens(&self) -> (r: u64)
        ensures
            r == self.spec_token_count(),
    {
        self.token_count
    }

    pub fn token_count(&self) -> (r: u64)
        ensures
            r == self.spec_token_count(),
    {
        self.token_count
    }

    /// Re-checks the validity conditions on a schedule of unknown provenance.
    pub fn is_valid(&self) -> (r: bool)
        requires
            pairs_wf(self.pairs()),
        ensures
            r == self.spec_is_valid(),
    {
        let ghost pairs = self.pairs();
        let n = self.vestings.len();
        if n > MAX_VESTINGS {
            return false;
        }

        let mut i: usize = 1;
        while i < n
            invariant
                1 <= i,
                i <= n || n == 0,
                n == pairs.len(),
                self.pairs() == pairs,
                pairs_wf(pairs),
                forall|j: int|
                    0 <= j < i - 1 ==> tranche_last(#[trigger] pairs[j].1)
                        <= pairs[j + 1].1.start_time,
            decreases n - i,
        {
            if tranche_last_exceeds(&self.vestings[i - 1].1, self.vestings[i].1.start_time) {
                proof {
                    assert(tranche_last(pairs[i - 1].1) > pairs[i as int].1.start_time);
                }
                return false;
            }
            i = i + 1;
        }

        let mut k: usize = 0;
        while k < n
            invariant
                k <= n,
                n == pairs.len(),
                self.pairs() == pairs,
                forall|j: int| 0 <= j < k ==> (#[trigger] pairs[j]).0 != 0,
            decreases n - k,
        {
            if self.vestings[k].0 == 0 {
                return false;
            }
            k = k + 1;
        }

        let mut f: usize = 0;
        while f < n
            invariant
                f <= n,
                n == pairs.len(),
                self.pairs() == pairs,
                pairs_wf(pairs),
                forall|j: int| 0 <= j < f ==> (#[trigger] pairs[j]).1.fits(),
            decreases n - f,
        {
            if tranche_last_exceeds(&self.vestings[f].1, u64::MAX) {
                proof {
                    assert(!pairs[f as int].1.fits());
                }
                return false;
            }
            f = f + 1;
        }

        true
    }

    /// The start time of the first tranche, or zero for an empty schedule.
    pub fn start_time(&self) -> (r: u64)
        ensures
            r == if self.pairs().len() >= 1 {
                self.pairs()[0].1.start_time
            } else {
                0u64
            },
    {
        if self.vestings.len() >= 1 {
            self.vestings[0].1.start_time
        } else {
            0
        }
    }

    /// The final unlock time of the last tranche.
    pub fn last(&self) -> (r: u64)
        requires
            self.pairs().len() >= 1,
            self.pairs().last().1.wf(),
            self.pairs().last().1.fits(),
        ensures
            r == tranche_last(self.pairs().last().1),
    {
        self.vestings[self.vestings.len() - 1].1.last()
    }

    /// The schedule's pair list.
    pub fn vestings(&self) -> (r: &Vec<(u64, LinearVesting)>)
        ensures
            r@ == self.pairs(),
    {
        &self.vestings
    }
}

impl Default for VestingSchedule {
    /// The empty schedule over zero tokens.
    fn default() -> (r: Self)
        ensures
            r.pairs().len() == 0,
            r.spec_token_count() == 0,
            r.wf(),
    {
        VestingSchedule { token_count: 0, vestings: Vec::new() }
    }
}

/// Monotonic unlock: a schedule's available amount never decreases as time
/// advances.
pub proof fn lemma_available_monotonic(s: VestingSchedule, t1: u64, t2: u64)
    requires
        pairs_wf(s.pairs()),
        t1 <= t2,
    ensures
        schedule_available(s.pairs(), t1 as int) <= schedule_available(s.pairs(), t2 as int),
{
    crate::state::lemma_schedule_available_monotonic(s.pairs(), t1 as int, t2 as int);
}

/// At the earliest representable time nothing is unlocked, provided the
/// schedule does not start at that very instant.
pub proof fn lemma_available_at_min_time(s: VestingSchedule)
    requires
        s.pairs().len() > 0 ==> s.pairs()[0].1.start_time > 0,
    ensures
        schedule_available(s.pairs(), u64::MIN as int) == 0,
{
}

/// At the latest representable time everything is unlocked: once every
/// tranche's final step has passed and the paired amounts sum to the
/// schedule's token count, the available amount is exactly that count.
pub proof fn lemma_available_at_max_time(s: VestingSchedule)
    requires
        pairs_wf(s.pairs()),
        pairs_fit(s.pairs()),
        sum_amounts(s.pairs()) == s.spec_token_count(),
    ensures
        schedule_available(s.pairs(), u64::MAX as int) == s.spec_token_count(),
{
    crate::state::lemma_schedule_available_full(s.pairs());
}

/// Whether the final unlock time of `v` lies strictly after `time`, computed
/// in 128-bit arithmetic so that no intermediate value can overflow.
pub(crate) fn tranche_last_exceeds(v: &LinearVesting, time: u64) -> (r: bool)
    requires
        v.wf(),
    ensures
        r == (tranche_last(*v) > time),
{
    proof {
        assert((v.unlock_period as int) * ((v.unlock_count - 1) as int)
            <= 0xffff_ffff_ffff_ffff * 255) by (nonlinear_arith)
            requires v.unlock_period <= 0xffff_ffff_ffff_ffff && 0 <= v.unlock_count - 1 <= 255;
    }
    let last128: u128 = v.start_time as u128
        + (v.unlock_period as u128) * ((v.unlock_count - 1) as u128);
    last128 > time as u128
}

/// One tranche's unlocked portion of `amount` at `time`: the completed-steps
/// fraction of the amount, rounded down, computed in 128-bit arithmetic.
fn tranche_amount_unlocked(amount: u64, v: LinearVesting, time: u64) -> (r: u64)
    requires
        v.wf(),
        v.start_time <= time,
    ensures
        r == tranche_unlocked(amount, v, time as int),
{
    let steps: u64 = if !tranche_last_exceeds(&v, time) {
        v.unlock_count as u64
    } else {
        // The final step lies strictly after `time`, so the tranche spans more
        // than one step and its period is positive.
        proof {
            assert(v.unlock_period > 0) by (nonlinear_arith)
                requires v.unlock_period * (v.unlock_count - 1) > 0;
            lemma_multiply_divide_lt(
                time - v.start_time,
                v.unlock_period as int,
                v.unlock_count - 1,
            );
        }
        (time - v.start_time) / v.unlock_period + 1
    };
    proof {
        assert(steps == tranche_steps(v, time as int));
        lemma_tranche_unlocked_bounds(amount, v, time as int);
        assert((amount as int) * (steps as int) <= 0xffff_ffff_ffff_ffff * 255)
            by (nonlinear_arith)
            requires amount <= 0xffff_ffff_ffff_ffff && 0 <= steps <= 255;
    }
    let portion128: u128 = (amount as u128) * (steps as u128) / (v.unlock_count as u128);
    portion128 as u64
}

} // verus!
