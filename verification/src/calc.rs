//! The lockup calculator: a pure function from a decoded contract state, a
//! timestamp and the bug-compatibility flag to the amount still locked.

use vstd::prelude::*;

use crate::LockupContractState;
use crate::StateModel;
use crate::VestingModel;
use crate::VestingSchedule;
use vstd::arithmetic::div_mod::lemma_div_is_ordered;
use vstd::arithmetic::div_mod::lemma_div_multiples_vanish;
use vstd::arithmetic::div_mod::lemma_div_pos_is_pos;
use vstd::arithmetic::div_mod::lemma_fundamental_div_mod;
use vstd::arithmetic::div_mod::lemma_hoist_over_denominator;
use vstd::arithmetic::div_mod::lemma_mod_bound;
use vstd::arithmetic::mul::lemma_mul_inequality;
use vstd::arithmetic::mul::lemma_mul_is_distributive_add_other_way;
use vstd::arithmetic::mul::lemma_mul_nonnegative;
use vstd::arithmetic::mul::lemma_mul_upper_bound;

verus! {

/// The smaller of two mathematical integers.
pub open spec fn min_int(a: int, b: int) -> int {
    if a <= b {
        a
    } else {
        b
    }
}

/// The instant the time-based release is anchored at, if any is known yet.
///
/// Normally that is `lockup_timestamp`; when it is unset the release is
/// gated on the `transfers_enabled` instant instead, and when neither is
/// known nothing has begun to release. Contract versions carrying the
/// historical defect anchored a linear-release window at the
/// `transfers_enabled` instant even when `lockup_timestamp` was set, so in
/// bug mode with a linear window present that anchor takes over.
pub open spec fn release_start(m: StateModel, bug: bool) -> Option<int> {
    if bug && m.release_duration is Some && m.transfers_enabled is Some {
        Some(m.transfers_enabled->0 as int)
    } else {
        match m.lockup_timestamp {
            Some(ts) => Some(ts as int),
            None => match m.transfers_enabled {
                Some(te) => Some(te as int),
                None => None,
            },
        }
    }
}

/// Tokens freed by the time-based release at timestamp `t`.
///
/// Without a linear-release window the release is a step: nothing before
/// `start + lockup_duration`, everything at and after it. With a window of
/// `rd` seconds the amount grows linearly from `start` and is complete at
/// `start + rd`. Proportions use flooring integer division.
pub open spec fn unlocked_by_release(m: StateModel, t: u64, bug: bool) -> int {
    match release_start(m, bug) {
        None => 0,
        Some(start) => match m.release_duration {
            None => if t >= start + m.lockup_duration {
                m.lockup_amount as int
            } else {
                0
            },
            Some(rd) => if (t as int) < start {
                0
            } else if t >= start + rd {
                m.lockup_amount as int
            } else {
                m.lockup_amount * ((t as int) - start) / (rd as int)
            },
        },
    }
}

/// Tokens vested at timestamp `t`.
///
/// A timed schedule vests nothing before the cliff, everything at and after
/// `end`, and in between follows the line anchored at `start`. An absent
/// schedule, like one only committed to by hash, does not gate the release:
/// the full amount counts as vested.
pub open spec fn vested_amount(m: StateModel, t: u64) -> int {
    match m.vesting_schedule {
        VestingModel::Unset => m.lockup_amount as int,
        VestingModel::Committed { .. } => m.lockup_amount as int,
        VestingModel::Timed { start, cliff, end } => if (t as int) < cliff {
            0
        } else if t >= end {
            m.lockup_amount as int
        } else {
            m.lockup_amount * ((t as int) - start) / ((end as int) - start)
        },
    }
}

/// Tokens still locked at timestamp `t`: the principal minus whatever both
/// the time-based release and the vesting condition have cleared, with the
/// clawed-back `terminated_unvested_amount` subtracted and the result
/// clamped at zero.
pub open spec fn spec_locked_amount(m: StateModel, t: u64, bug: bool) -> int {
    let available = min_int(unlocked_by_release(m, t, bug), vested_amount(m, t));
    let base = m.lockup_amount - available;
    if base - m.terminated_unvested_amount >= 0 {
        base - m.terminated_unvested_amount
    } else {
        0
    }
}

/// Splitting a proportional share at the divisor loses nothing:
/// `a*e/d` equals `(a/d)*e + (a%d)*e/d`, which is how the executable code
/// avoids a 256-bit intermediate product.
pub(crate) proof fn lemma_prorate_split(a: int, e: int, d: int)
    requires
        0 <= a,
        0 <= e,
        0 < d,
    ensures
        a * e / d == (a / d) * e + (a % d) * e / d,
{
    let q = a / d;
    let r = a % d;
    lemma_fundamental_div_mod(a, d);
    assert(a * e == (d * q + r) * e);
    assert((d * q + r) * e == d * q * e + r * e) by {
        lemma_mul_is_distributive_add_other_way(e, d * q, r);
    }
    assert(d * q * e == (q * e) * d) by (nonlinear_arith);
    assert((r * e + (q * e) * d) / d == r * e / d + q * e) by {
        lemma_hoist_over_denominator(r * e, q * e, d as nat);
    }
}

/// A proportional share of `a` never leaves `[0, a]` while `e <= d`.
pub(crate) proof fn lemma_prorate_bounds(a: int, e: int, d: int)
    requires
        0 <= a,
        0 <= e <= d,
        0 < d,
    ensures
        0 <= a * e / d <= a,
{
    lemma_mul_nonnegative(a, e);
    lemma_div_pos_is_pos(a * e, d);
    lemma_mul_inequality(e, d, a);
    assert(e * a == a * e) by (nonlinear_arith);
    assert(d * a == a * d) by (nonlinear_arith);
    lemma_div_is_ordered(a * e, a * d, d);
    lemma_div_multiples_vanish(a, d);
    assert(d * a == a * d) by (nonlinear_arith);
}

/// A proportional share grows with the elapsed time.
pub(crate) proof fn lemma_prorate_mono(a: int, e1: int, e2: int, d: int)
    requires
        0 <= a,
        0 <= e1 <= e2,
        0 < d,
    ensures
        a * e1 / d <= a * e2 / d,
{
    lemma_mul_inequality(e1, e2, a);
    assert(e1 * a == a * e1) by (nonlinear_arith);
    assert(e2 * a == a * e2) by (nonlinear_arith);
    lemma_div_is_ordered(a * e1, a * e2, d);
}

/// `amount` prorated by `elapsed / duration` with flooring division,
/// computed without overflowing 128 bits by splitting at the divisor.
fn prorated(amount: u128, elapsed: u64, duration: u64) -> (r: u128)
    requires
        0 < duration,
        elapsed <= duration,
    ensures
        r as int == (amount as int) * (elapsed as int) / (duration as int),
        r <= amount,
{
    let d = duration as u128;
    let e = elapsed as u128;
    let q = amount / d;
    let rem = amount % d;
    proof {
        lemma_fundamental_div_mod(amount as int, d as int);
        lemma_mod_bound(amount as int, d as int);
        assert((rem as int) * (e as int) <= 0xffffffffffffffff * 0xffffffffffffffff) by {
            lemma_mul_upper_bound(rem as int, 0xffffffffffffffff, e as int, 0xffffffffffffffff);
        }
        // q * e stays under amount because q * d does.
        assert((q as int) * (e as int) <= (q as int) * (d as int)) by {
            lemma_mul_inequality(e as int, d as int, q as int);
            assert((e as int) * (q as int) == (q as int) * (e as int)) by (nonlinear_arith);
            assert((d as int) * (q as int) == (q as int) * (d as int)) by (nonlinear_arith);
        }
        assert((q as int) * (d as int) <= amount) by {
            assert((d as int) * (q as int) == (q as int) * (d as int)) by (nonlinear_arith);
        }
        lemma_prorate_split(amount as int, e as int, d as int);
        lemma_prorate_bounds(rem as int, e as int, d as int);
        lemma_prorate_bounds(amount as int, e as int, d as int);
    }
    let part = rem * e / d;
    q * e + part
}

/// Tokens freed by the time-based release, as executable code.
fn compute_release(s: &LockupContractState, t: u64, bug: bool) -> (r: u128)
    ensures
        r as int == unlocked_by_release(s@, t, bug),
        r <= s.lockup_amount,
{
    let start_opt: Option<u64> = if bug && s.release_duration.is_some()
        && s.transfers_enabled.is_some() {
        s.transfers_enabled
    } else if s.lockup_timestamp.is_some() {
        s.lockup_timestamp
    } else {
        s.transfers_enabled
    };
    match start_opt {
        None => 0,
        Some(start) => match s.release_duration {
            None => match start.checked_add(s.lockup_duration) {
                Some(step_at) => if t >= step_at {
                    s.lockup_amount
                } else {
                    0
                },
                None => 0,
            },
            Some(rd) => {
                if t < start {
                    0
                } else {
                    match start.checked_add(rd) {
                        Some(full_at) => if t >= full_at {
                            s.lockup_amount
                        } else {
                            prorated(s.lockup_amount, t - start, rd)
                        },
                        None => prorated(s.lockup_amount, t - start, rd),
                    }
                }
            },
        },
    }
}

/// Tokens vested at `t`, as executable code.
fn compute_vested(s: &LockupContractState, t: u64) -> (r: u128)
    requires
        s.wf(),
    ensures
        r as int == vested_amount(s@, t),
        r <= s.lockup_amount,
{
    match &s.vesting_schedule {
        VestingSchedule::Unset => s.lockup_amount,
        VestingSchedule::Committed { .. } => s.lockup_amount,
        VestingSchedule::Timed { start, cliff, end } => {
            let start = *start;
            let cliff = *cliff;
            let end = *end;
            if t < cliff {
                0
            } else if t >= end {
                s.lockup_amount
            } else {
                prorated(s.lockup_amount, t - start, end - start)
            }
        },
    }
}

/// How many tokens of `s` are still locked at timestamp `t`.
///
/// `bug` selects the compatibility branch for contract versions carrying
/// the historical release-schedule defect. The result is exactly
/// [`spec_locked_amount`] and always lies in `[0, lockup_amount]`.
pub fn locked_amount(s: &LockupContractState, t: u64, bug: bool) -> (r: u128)
    requires
        s.wf(),
    ensures
        r as int == spec_locked_amount(s@, t, bug),
        r <= s.lockup_amount,
{
    let released = compute_release(s, t, bug);
    let vested = compute_vested(s, t);
    let available = if released <= vested {
        released
    } else {
        vested
    };
    let base = s.lockup_amount - available;
    if base >= s.terminated_unvested_amount {
        base - s.terminated_unvested_amount
    } else {
        0
    }
}

} // verus!
