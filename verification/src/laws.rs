//! Laws of the lockup calculator, stated over [`crate::calc::spec_locked_amount`]
//! and proved for every well-formed state.

use vstd::prelude::*;

use crate::calc::lemma_prorate_bounds;
use crate::calc::lemma_prorate_mono;
use crate::calc::min_int;
use crate::calc::release_start;
use crate::calc::spec_locked_amount;
use crate::calc::unlocked_by_release;
use crate::calc::vested_amount;
use crate::model_wf;
use crate::StateModel;
use crate::VestingModel;
use vstd::arithmetic::div_mod::lemma_div_denominator;
use vstd::arithmetic::div_mod::lemma_div_multiples_vanish;
use vstd::arithmetic::mul::lemma_mul_is_commutative;

verus! {

/// The time-based release frees between nothing and the whole principal.
proof fn lemma_release_bounds(m: StateModel, t: u64, bug: bool)
    ensures
        0 <= unlocked_by_release(m, t, bug) <= m.lockup_amount,
{
    match release_start(m, bug) {
        None => {},
        Some(start) => match m.release_duration {
            None => {},
            Some(rd) => {
                if start <= t as int && (t as int) < start + rd {
                    lemma_prorate_bounds(m.lockup_amount as int, t - start, rd as int);
                }
            },
        },
    }
}

/// The vested amount lies between nothing and the whole principal.
proof fn lemma_vested_bounds(m: StateModel, t: u64)
    requires
        model_wf(m),
    ensures
        0 <= vested_amount(m, t) <= m.lockup_amount,
{
    match m.vesting_schedule {
        VestingModel::Unset => {},
        VestingModel::Committed { .. } => {},
        VestingModel::Timed { start, cliff, end } => {
            if cliff <= t as int && (t as int) < end {
                lemma_prorate_bounds(m.lockup_amount as int, t - start, end - start);
            }
        },
    }
}

/// The time-based release never takes freed tokens back.
proof fn lemma_release_mono(m: StateModel, t1: u64, t2: u64, bug: bool)
    requires
        t1 <= t2,
    ensures
        unlocked_by_release(m, t1, bug) <= unlocked_by_release(m, t2, bug),
{
    lemma_release_bounds(m, t1, bug);
    lemma_release_bounds(m, t2, bug);
    match release_start(m, bug) {
        None => {},
        Some(start) => match m.release_duration {
            None => {},
            Some(rd) => {
                if start <= t1 as int && (t1 as int) < start + rd && start <= t2 as int && (t2 as int) < start + rd {
                    lemma_prorate_mono(m.lockup_amount as int, t1 - start, t2 - start, rd as int);
                }
            },
        },
    }
}

/// The vested amount never shrinks as time passes.
proof fn lemma_vested_mono(m: StateModel, t1: u64, t2: u64)
    requires
        model_wf(m),
        t1 <= t2,
    ensures
        vested_amount(m, t1) <= vested_amount(m, t2),
{
    lemma_vested_bounds(m, t1);
    lemma_vested_bounds(m, t2);
    match m.vesting_schedule {
        VestingModel::Unset => {},
        VestingModel::Committed { .. } => {},
        VestingModel::Timed { start, cliff, end } => {
            if cliff <= t1 as int && (t1 as int) < end && cliff <= t2 as int && (t2 as int)
                < end {
                lemma_prorate_mono(m.lockup_amount as int, t1 - start, t2 - start, end - start);
            }
        },
    }
}

/// The locked amount always lies in `[0, lockup_amount]`, for every
/// timestamp and either bug flag.
pub proof fn lemma_locked_amount_in_range(m: StateModel, t: u64, bug: bool)
    requires
        model_wf(m),
    ensures
        0 <= spec_locked_amount(m, t, bug) <= m.lockup_amount,
{
    lemma_release_bounds(m, t, bug);
    lemma_vested_bounds(m, t);
}

/// Tokens never re-lock: with the state and the bug flag fixed, the locked
/// amount is non-increasing as the timestamp grows.
pub proof fn lemma_locked_amount_monotone(m: StateModel, t1: u64, t2: u64, bug: bool)
    requires
        model_wf(m),
        t1 <= t2,
    ensures
        spec_locked_amount(m, t2, bug) <= spec_locked_amount(m, t1, bug),
{
    lemma_release_mono(m, t1, t2, bug);
    lemma_vested_mono(m, t1, t2);
    lemma_release_bounds(m, t1, bug);
    lemma_vested_bounds(m, t1);
}

/// With no linear-release window and no vesting, the lockup is all-or-
/// nothing: fully locked strictly before `lockup_timestamp + lockup_duration`
/// and fully released from that instant on. Stated for an untouched
/// contract, one with nothing clawed back by termination.
pub proof fn lemma_step_release(m: StateModel, t: u64, bug: bool)
    requires
        model_wf(m),
        m.release_duration is None,
        m.vesting_schedule is Unset,
        m.lockup_timestamp is Some,
        m.terminated_unvested_amount == 0,
    ensures
        spec_locked_amount(m, t, bug) == if (t as int) < m.lockup_timestamp->0
            + m.lockup_duration {
            m.lockup_amount as int
        } else {
            0
        },
{
}

/// Halfway through an even linear-release window of `R` seconds starting at
/// `lockup_timestamp`, exactly `lockup_amount / 2` has been released (with
/// flooring division), so `lockup_amount - lockup_amount / 2` is still
/// locked. Stated for an untouched contract with no vesting.
pub proof fn lemma_linear_release_half(m: StateModel)
    requires
        model_wf(m),
        m.release_duration is Some,
        0 < m.release_duration->0,
        m.release_duration->0 % 2 == 0,
        m.vesting_schedule is Unset,
        m.lockup_timestamp is Some,
        m.terminated_unvested_amount == 0,
        m.lockup_timestamp->0 + m.release_duration->0 / 2 <= u64::MAX,
    ensures
        spec_locked_amount(
            m,
            (m.lockup_timestamp->0 + m.release_duration->0 / 2) as u64,
            false,
        ) == m.lockup_amount - m.lockup_amount / 2,
{
    let liv = m.lockup_amount as int;
    let start = m.lockup_timestamp->0 as int;
    let rd = m.release_duration->0 as int;
    let half = rd / 2;
    let t = (m.lockup_timestamp->0 + m.release_duration->0 / 2) as u64;
    assert(t as int == start + half);
    assert(unlocked_by_release(m, t, false) == liv * half / rd);
    assert(liv * half / rd == liv / 2) by {
        assert(rd == half * 2);
        lemma_div_denominator(liv * half, half, 2);
        lemma_mul_is_commutative(liv, half);
        lemma_div_multiples_vanish(liv, half);
    }
    lemma_prorate_bounds(liv, half, rd);
}

/// Once the release is complete and vesting has cleared, nothing remains
/// locked, whatever was clawed back by termination.
pub proof fn lemma_termination_after_full_release(m: StateModel, t: u64, bug: bool)
    requires
        model_wf(m),
        unlocked_by_release(m, t, bug) == m.lockup_amount,
        vested_amount(m, t) == m.lockup_amount,
    ensures
        spec_locked_amount(m, t, bug) == 0,
{
}

/// Before anything has been released, exactly the clawed-back
/// `terminated_unvested_amount` is already free: the locked amount is
/// `lockup_amount` minus it, never less than zero.
pub proof fn lemma_termination_floor_before_release(m: StateModel, t: u64, bug: bool)
    requires
        model_wf(m),
        unlocked_by_release(m, t, bug) == 0,
    ensures
        spec_locked_amount(m, t, bug) == m.lockup_amount - m.terminated_unvested_amount,
{
    lemma_vested_bounds(m, t);
    assert(min_int(0, vested_amount(m, t)) == 0);
}

} // verus!

