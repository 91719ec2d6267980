//! The vesting tranche primitive and its unlock arithmetic.
//!
//! A tranche ([`LinearVesting`]) releases its associated tokens in
//! `unlock_count` equal steps, one every `unlock_period` seconds, starting at
//! `start_time`.  A cliff is the degenerate single-step tranche.  Token
//! amounts are never stored in a tranche itself; a schedule pairs each
//! tranche with an amount.

use vstd::prelude::*;
use vstd::arithmetic::div_mod::{
    lemma_div_is_ordered, lemma_div_multiples_vanish, lemma_multiply_divide_lt,
};
use vstd::arithmetic::mul::lemma_mul_inequality;

verus! {

/// A vesting curve that has not yet been anchored to an absolute start time.
///
/// Only an anchored [`LinearVesting`] may enter a schedule; this template
/// form exists so that offset-relative tranches cannot be confused with
/// absolute ones.
#[derive(Debug, Clone, Copy, PartialEq, Eq, Structural)]
pub struct WithoutStart {
    pub unlock_period: u64,
    pub unlock_count: u8,
}

impl WithoutStart {
    /// The tranche this template yields once anchored at `start_time`.
    pub open spec fn anchored(self, start_time: u64) -> LinearVesting {
        LinearVesting {
            start_time,
            unlock_period: self.unlock_period,
            unlock_count: if self.unlock_count >= 1 {
                self.unlock_count
            } else {
                1u8
            },
        }
    }
}

/// A single linear-unlock curve: starting at `start_time`, one of
/// `unlock_count` equal portions unlocks every `unlock_period` seconds.
///
/// `unlock_period` may be zero only for a single-step tranche (a cliff);
/// every constructor forces `unlock_count >= 1`.
#[derive(Debug, Clone, Copy, PartialEq, Eq, Structural)]
pub struct LinearVesting {
    pub start_time: u64,
    pub unlock_period: u64,
    pub unlock_count: u8,
}

/// The time of a tranche's final unlock step, as an unbounded integer.
pub open spec fn tranche_last(v: LinearVesting) -> int {
    v.start_time + v.unlock_period * (v.unlock_count - 1)
}

impl LinearVesting {
    /// Every tranche built by a constructor has at least one unlock step.
    pub open spec fn wf(self) -> bool {
        self.unlock_count >= 1
    }

    /// The final unlock time fits in a `u64`, so `last` may be computed.
    pub open spec fn fits(self) -> bool {
        tranche_last(self) <= u64::MAX
    }

    pub fn new(start_time: u64, unlock_period: u64, unlock_count: u8) -> (r: LinearVesting)
        ensures
            r.start_time == start_time,
            r.unlock_period == unlock_period,
            r.unlock_count == if unlock_count >= 1 { unlock_count } else { 1u8 },
            r.wf(),
    {
        LinearVesting {
            start_time,
            unlock_period,
            unlock_count: if unlock_count >= 1 { unlock_count } else { 1 },
        }
    }

    pub fn without_start(unlock_period: u64, unlock_count: u8) -> (r: WithoutStart)
        ensures
            r.unlock_period == unlock_period,
            r.unlock_count == if unlock_count >= 1 { unlock_count } else { 1u8 },
    {
        WithoutStart { unlock_period, unlock_count: if unlock_count >= 1 { unlock_count } else { 1 } }
    }

    /// A cliff: everything unlocks in a single step at `start_time`.
    pub fn cliff(start_time: u64) -> (r: LinearVesting)
        ensures
            r == (LinearVesting { start_time, unlock_period: 0, unlock_count: 1 }),
    {
        LinearVesting::new(start_time, 0, 1)
    }

    /// Forgets the anchor, leaving only the curve's shape.
    pub fn remove_start(&self) -> (r: WithoutStart)
        ensures
            r.unlock_period == self.unlock_period,
            r.unlock_count == self.unlock_count,
    {
        WithoutStart { unlock_period: self.unlock_period, unlock_count: self.unlock_count }
    }

    /// The time of the final unlock step.
    pub fn last(&self) -> (r: u64)
        requires
            self.wf(),
            self.fits(),
        ensures
            r == tranche_last(*self),
    {
        self.start_time + self.unlock_period * ((self.unlock_count - 1) as u64)
    }

    pub fn unlock_period(&self) -> (r: u64)
        ensures
            r == self.unlock_period,
    {
        self.unlock_period
    }

    pub fn start_time(&self) -> (r: u64)
        ensures
            r == self.start_time,
    {
        self.start_time
    }

    pub fn unlock_count(&self) -> (r: u8)
        ensures
            r == self.unlock_count,
    {
        self.unlock_count
    }
}

impl Default for LinearVesting {
    /// The single-step tranche at time zero.
    fn default() -> (r: Self)
        ensures
            r == (LinearVesting { start_time: 0, unlock_period: 0, unlock_count: 1u8 }),
    {
        LinearVesting::new(0, 0, 0)
    }
}

/// The number of unlock steps of `v` completed at `time`: none before the
/// start, all of them at and after the final step, and otherwise one step per
/// whole period elapsed since the start, plus the step at the start itself.
pub open spec fn tranche_steps(v: LinearVesting, time: int) -> int {
    if time < v.start_time {
        0
    } else if time >= tranche_last(v) {
        v.unlock_count as int
    } else {
        (time - v.start_time) / (v.unlock_period as int) + 1
    }
}

/// The portion of `amount` unlocked by tranche `v` at `time`: the completed
/// steps' fraction of the amount, rounded down.
pub open spec fn tranche_unlocked(amount: u64, v: LinearVesting, time: int) -> int {
    (amount * tranche_steps(v, time)) / (v.unlock_count as int)
}

/// The aggregate unlocked amount of a pair list at `time`.  Mirrors the
/// aggregation order of the executable code: pairs are consumed from the
/// front, and the walk stops at the first tranche that has not started yet.
pub open spec fn schedule_available(pairs: Seq<(u64, LinearVesting)>, time: int) -> int
    decreases pairs.len(),
{
    if pairs.len() == 0 {
        0
    } else if pairs[0].1.start_time > time {
        0
    } else {
        tranche_unlocked(pairs[0].0, pairs[0].1, time) + schedule_available(pairs.drop_first(), time)
    }
}

/// The sum of the token amounts of a pair list.
pub open spec fn sum_amounts(pairs: Seq<(u64, LinearVesting)>) -> int
    decreases pairs.len(),
{
    if pairs.len() == 0 {
        0
    } else {
        pairs[0].0 + sum_amounts(pairs.drop_first())
    }
}

/// Pairs are sorted and non-overlapping: each tranche ends no later than the
/// next one starts.
pub open spec fn pairs_sorted(pairs: Seq<(u64, LinearVesting)>) -> bool {
    forall|i: int|
        0 <= i < pairs.len() - 1 ==> tranche_last(#[trigger] pairs[i].1) <= pairs[i + 1].1.start_time
}

/// Every tranche of the list has at least one unlock step.
pub open spec fn pairs_wf(pairs: Seq<(u64, LinearVesting)>) -> bool {
    forall|i: int| 0 <= i < pairs.len() ==> (#[trigger] pairs[i]).1.wf()
}

/// Every tranche's final unlock time fits in a `u64`.
pub open spec fn pairs_fit(pairs: Seq<(u64, LinearVesting)>) -> bool {
    forall|i: int| 0 <= i < pairs.len() ==> (#[trigger] pairs[i]).1.fits()
}

/// No pair carries a zero token amount.
pub open spec fn no_zero_amounts(pairs: Seq<(u64, LinearVesting)>) -> bool {
    forall|i: int| 0 <= i < pairs.len() ==> (#[trigger] pairs[i]).0 != 0
}

pub proof fn lemma_sum_amounts_nonneg(pairs: Seq<(u64, LinearVesting)>)
    ensures
        sum_amounts(pairs) >= 0,
    decreases pairs.len(),
{
    if pairs.len() > 0 {
        lemma_sum_amounts_nonneg(pairs.drop_first());
    }
}

pub proof fn lemma_sum_amounts_push(pairs: Seq<(u64, LinearVesting)>, pair: (u64, LinearVesting))
    ensures
        sum_amounts(pairs.push(pair)) == sum_amounts(pairs) + pair.0,
    decreases pairs.len(),
{
    if pairs.len() == 0 {
        assert(pairs.push(pair)[0] == pair);
        assert(pairs.push(pair).drop_first() =~= Seq::<(u64, LinearVesting)>::empty());
        assert(sum_amounts(pairs.push(pair))
            == pair.0 + sum_amounts(pairs.push(pair).drop_first()));
        assert(sum_amounts(Seq::<(u64, LinearVesting)>::empty()) == 0);
    } else {
        assert(pairs.push(pair)[0] == pairs[0]);
        assert(pairs.push(pair).drop_first() =~= pairs.drop_first().push(pair));
        lemma_sum_amounts_push(pairs.drop_first(), pair);
        assert(sum_amounts(pairs.push(pair))
            == pairs[0].0 + sum_amounts(pairs.push(pair).drop_first()));
    }
}

pub proof fn lemma_sum_amounts_drop_last(pairs: Seq<(u64, LinearVesting)>)
    requires
        pairs.len() > 0,
    ensures
        sum_amounts(pairs) == sum_amounts(pairs.drop_last()) + pairs.last().0,
{
    assert(pairs.drop_last().push(pairs.last()) =~= pairs);
    lemma_sum_amounts_push(pairs.drop_last(), pairs.last());
}

/// The completed-step count lies between none and all of the steps.
pub proof fn lemma_tranche_steps_in_range(v: LinearVesting, time: int)
    requires
        v.wf(),
    ensures
        0 <= tranche_steps(v, time) <= v.unlock_count,
{
    if v.start_time <= time < tranche_last(v) {
        // In this band the tranche spans more than one step, so the period is
        // positive and the elapsed time is less than period * (count - 1).
        assert(v.unlock_period * (v.unlock_count - 1) > 0);
        assert(v.unlock_period > 0) by (nonlinear_arith)
            requires v.unlock_period * (v.unlock_count - 1) > 0;
        lemma_multiply_divide_lt(
            time - v.start_time,
            v.unlock_period as int,
            v.unlock_count - 1,
        );
    }
}

/// A tranche never unlocks more than its paired amount, and never a negative
/// amount.
pub proof fn lemma_tranche_unlocked_bounds(amount: u64, v: LinearVesting, time: int)
    requires
        v.wf(),
    ensures
        0 <= tranche_unlocked(amount, v, time) <= amount,
{
    lemma_tranche_steps_in_range(v, time);
    let s = tranche_steps(v, time);
    let c = v.unlock_count as int;
    assert(amount * s >= 0) by (nonlinear_arith)
        requires amount >= 0 && s >= 0;
    assert(amount * s <= amount * c) by (nonlinear_arith)
        requires amount >= 0 && s <= c;
    lemma_div_is_ordered(amount * s, amount * c, c);
    lemma_div_multiples_vanish(amount as int, c);
    assert(c * (amount as int) == amount * c) by (nonlinear_arith);
    assert((amount * s) / c >= 0) by {
        lemma_div_is_ordered(0, amount * s, c);
    }
}

/// A tranche's unlocked amount never decreases as time advances.
pub proof fn lemma_tranche_unlocked_monotonic(amount: u64, v: LinearVesting, t1: int, t2: int)
    requires
        v.wf(),
        t1 <= t2,
    ensures
        tranche_unlocked(amount, v, t1) <= tranche_unlocked(amount, v, t2),
{
    lemma_tranche_steps_in_range(v, t1);
    lemma_tranche_steps_in_range(v, t2);
    let s1 = tranche_steps(v, t1);
    let s2 = tranche_steps(v, t2);
    let c = v.unlock_count as int;
    assert(s1 <= s2) by {
        if v.start_time <= t1 < tranche_last(v) && v.start_time <= t2 < tranche_last(v) {
            assert(v.unlock_period > 0) by (nonlinear_arith)
                requires v.unlock_period * (v.unlock_count - 1) > 0;
            assert(v.unlock_period * (v.unlock_count - 1) > 0);
            lemma_div_is_ordered(t1 - v.start_time, t2 - v.start_time, v.unlock_period as int);
        }
    }
    lemma_mul_inequality(s1, s2, amount as int);
    assert(amount * s1 == s1 * amount) by (nonlinear_arith);
    assert(amount * s2 == s2 * amount) by (nonlinear_arith);
    lemma_div_is_ordered(amount * s1, amount * s2, c);
}

pub proof fn lemma_schedule_available_nonneg(pairs: Seq<(u64, LinearVesting)>, time: int)
    requires
        pairs_wf(pairs),
    ensures
        schedule_available(pairs, time) >= 0,
    decreases pairs.len(),
{
    if pairs.len() > 0 && pairs[0].1.start_time <= time {
        lemma_tranche_unlocked_bounds(pairs[0].0, pairs[0].1, time);
        assert(pairs_wf(pairs.drop_first()));
        lemma_schedule_available_nonneg(pairs.drop_first(), time);
    }
}

/// The aggregate unlocked amount never decreases as time advances.
pub proof fn lemma_schedule_available_monotonic(pairs: Seq<(u64, LinearVesting)>, t1: int, t2: int)
    requires
        pairs_wf(pairs),
        t1 <= t2,
    ensures
        schedule_available(pairs, t1) <= schedule_available(pairs, t2),
    decreases pairs.len(),
{
    if pairs.len() == 0 {
    } else if pairs[0].1.start_time > t1 {
        lemma_schedule_available_nonneg(pairs, t2);
    } else {
        lemma_tranche_unlocked_monotonic(pairs[0].0, pairs[0].1, t1, t2);
        assert(pairs_wf(pairs.drop_first()));
        lemma_schedule_available_monotonic(pairs.drop_first(), t1, t2);
    }
}

/// Once the latest time has passed every tranche's final step, the aggregate
/// unlocked amount is exactly the sum of all paired amounts.
pub proof fn lemma_schedule_available_full(pairs: Seq<(u64, LinearVesting)>)
    requires
        pairs_wf(pairs),
        pairs_fit(pairs),
    ensures
        schedule_available(pairs, u64::MAX as int) == sum_amounts(pairs),
    decreases pairs.len(),
{
    if pairs.len() > 0 {
        let (amount, v) = pairs[0];
        assert(tranche_steps(v, u64::MAX as int) == v.unlock_count as int);
        let c = v.unlock_count as int;
        assert(amount * c == c * (amount as int)) by (nonlinear_arith);
        lemma_div_multiples_vanish(amount as int, c);
        assert(tranche_unlocked(amount, v, u64::MAX as int) == amount);
        assert(pairs_wf(pairs.drop_first()));
        assert(pairs_fit(pairs.drop_first()));
        lemma_schedule_available_full(pairs.drop_first());
    }
}

} // verus!
