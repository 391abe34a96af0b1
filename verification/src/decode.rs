//! The state decoder: turns the raw state blob fetched from the ledger into
//! a [`LockupContractState`], or says exactly why the bytes are rejected.
//!
//! The binary schema is little-endian and sequential: the owner identity as
//! a 4-byte length followed by that many bytes, the 16-byte lockup amount,
//! the 8-byte lockup duration, two optional 8-byte instants each behind a
//! one-byte tag, the vesting schedule behind a one-byte tag (absent, timed
//! with three 8-byte instants, or committed with a 32-byte hash), the
//! optional transfers-enabled instant, the 16-byte clawed-back amount, and
//! the whitelist account identity. Unknown trailing bytes are ignored for
//! forward compatibility; a decoded state that violates the documented
//! invariants is rejected rather than returned.

use vstd::prelude::*;

use crate::model_wf;
use crate::LockupContractState;
use crate::StateModel;
use crate::VestingModel;
use crate::VestingSchedule;
use vstd::arithmetic::mul::lemma_mul_inequality;
use vstd::arithmetic::power::lemma_pow0;
use vstd::arithmetic::power::lemma_pow_increases;
use vstd::arithmetic::power::pow;

verus! {

/// Why a state blob was rejected.
#[derive(Clone, Copy, Debug, PartialEq, Eq, Structural)]
pub enum DecodeError {
    /// The bytes end before the required fields do.
    Truncated,
    /// An option or vesting tag byte holds an unknown value.
    BadTag,
    /// The fields decode but violate a documented invariant.
    InvariantViolated,
}

/// The little-endian value of the `n` bytes of `b` starting at `p`.
pub open spec fn le_val(b: Seq<u8>, p: int, n: int) -> int
    decreases n,
{
    if n <= 0 {
        0
    } else {
        b[p] + 256 * le_val(b, p + 1, n - 1)
    }
}

/// A little-endian value of `n` bytes lies below `256^n`.
proof fn lemma_le_val_bound(b: Seq<u8>, p: int, n: int)
    requires
        0 <= p,
        0 <= n,
        p + n <= b.len(),
    ensures
        0 <= le_val(b, p, n) < pow(256, n as nat),
    decreases n,
{
    lemma_pow0(256);
    if n == 0 {
    } else {
        lemma_le_val_bound(b, p + 1, n - 1);
        assert(pow(256, n as nat) == 256 * pow(256, (n - 1) as nat)) by {
            reveal_with_fuel(pow, 2);
        }
        lemma_mul_inequality(le_val(b, p + 1, n - 1), pow(256, (n - 1) as nat) - 1, 256);
    }
}

/// Reading one byte at `p`.
pub open spec fn sp_byte(b: Seq<u8>, p: int) -> Result<(u8, int), DecodeError> {
    if p + 1 <= b.len() {
        Ok((b[p], p + 1))
    } else {
        Err(DecodeError::Truncated)
    }
}

/// Reading a little-endian `u32` at `p`.
pub open spec fn sp_u32(b: Seq<u8>, p: int) -> Result<(u32, int), DecodeError> {
    if p + 4 <= b.len() {
        Ok((le_val(b, p, 4) as u32, p + 4))
    } else {
        Err(DecodeError::Truncated)
    }
}

/// Reading a little-endian `u64` at `p`.
pub open spec fn sp_u64(b: Seq<u8>, p: int) -> Result<(u64, int), DecodeError> {
    if p + 8 <= b.len() {
        Ok((le_val(b, p, 8) as u64, p + 8))
    } else {
        Err(DecodeError::Truncated)
    }
}

/// Reading a little-endian `u128` at `p`.
pub open spec fn sp_u128(b: Seq<u8>, p: int) -> Result<(u128, int), DecodeError> {
    if p + 16 <= b.len() {
        Ok((le_val(b, p, 16) as u128, p + 16))
    } else {
        Err(DecodeError::Truncated)
    }
}

/// Reading `n` raw bytes at `p`.
pub open spec fn sp_bytes(b: Seq<u8>, p: int, n: int) -> Result<(Seq<u8>, int), DecodeError> {
    if p + n <= b.len() {
        Ok((b.subrange(p, p + n), p + n))
    } else {
        Err(DecodeError::Truncated)
    }
}

/// Reading a length-prefixed identity: a 4-byte length, then that many bytes.
pub open spec fn sp_id(b: Seq<u8>, p: int) -> Result<(Seq<u8>, int), DecodeError> {
    match sp_u32(b, p) {
        Err(e) => Err(e),
        Ok((len, p1)) => sp_bytes(b, p1, len as int),
    }
}

/// Reading an optional instant: tag byte 0 for absent, 1 followed by the
/// 8-byte value for present; any other tag is rejected.
pub open spec fn sp_opt_u64(b: Seq<u8>, p: int) -> Result<(Option<u64>, int), DecodeError> {
    match sp_byte(b, p) {
        Err(e) => Err(e),
        Ok((tag, p1)) => if tag == 0 {
            Ok((None, p1))
        } else if tag == 1 {
            match sp_u64(b, p1) {
                Err(e) => Err(e),
                Ok((v, p2)) => Ok((Some(v), p2)),
            }
        } else {
            Err(DecodeError::BadTag)
        },
    }
}

/// Reading the vesting schedule: tag 0 for absent, 1 for a timed schedule
/// with start, cliff and end instants, 2 for a committed 32-byte hash.
pub open spec fn sp_vesting(b: Seq<u8>, p: int) -> Result<(VestingModel, int), DecodeError> {
    match sp_byte(b, p) {
        Err(e) => Err(e),
        Ok((tag, p1)) => if tag == 0 {
            Ok((VestingModel::Unset, p1))
        } else if tag == 1 {
            match sp_u64(b, p1) {
                Err(e) => Err(e),
                Ok((start, p2)) => match sp_u64(b, p2) {
                    Err(e) => Err(e),
                    Ok((cliff, p3)) => match sp_u64(b, p3) {
                        Err(e) => Err(e),
                        Ok((end, p4)) => Ok((VestingModel::Timed { start, cliff, end }, p4)),
                    },
                },
            }
        } else if tag == 2 {
            match sp_bytes(b, p1, 32) {
                Err(e) => Err(e),
                Ok((hash, p2)) => Ok((VestingModel::Committed { hash }, p2)),
            }
        } else {
            Err(DecodeError::BadTag)
        },
    }
}

/// The whole schema, field after field; trailing bytes beyond the last
/// field are ignored.
pub open spec fn decode_spec(b: Seq<u8>) -> Result<StateModel, DecodeError> {
    match sp_id(b, 0) {
        Err(e) => Err(e),
        Ok((owner, p1)) => match sp_u128(b, p1) {
            Err(e) => Err(e),
            Ok((lockup_amount, p2)) => match sp_u64(b, p2) {
                Err(e) => Err(e),
                Ok((lockup_duration, p3)) => match sp_opt_u64(b, p3) {
                    Err(e) => Err(e),
                    Ok((lockup_timestamp, p4)) => match sp_opt_u64(b, p4) {
                        Err(e) => Err(e),
                        Ok((release_duration, p5)) => match sp_vesting(b, p5) {
                            Err(e) => Err(e),
                            Ok((vesting_schedule, p6)) => match sp_opt_u64(b, p6) {
                                Err(e) => Err(e),
                                Ok((transfers_enabled, p7)) => match sp_u128(b, p7) {
                                    Err(e) => Err(e),
                                    Ok((terminated_unvested_amount, p8)) => match sp_id(b, p8) {
                                        Err(e) => Err(e),
                                        Ok((staking_pool_whitelist_account, _p9)) => {
                                            let m = StateModel {
                                                owner,
                                                lockup_amount,
                                                lockup_duration,
                                                lockup_timestamp,
                                                release_duration,
                                                vesting_schedule,
                                                transfers_enabled,
                                                terminated_unvested_amount,
                                                staking_pool_whitelist_account,
                                            };
                                            if model_wf(m) {
                                                Ok(m)
                                            } else {
                                                Err(DecodeError::InvariantViolated)
                                            }
                                        },
                                    },
                                },
                            },
                        },
                    },
                },
            },
        },
    }
}

/// Little-endian read of `n <= 16` bytes into an accumulator, most
/// significant byte first.
fn read_le(b: &Vec<u8>, p: usize, n: usize) -> (r: u128)
    requires
        n <= 16,
        p + n <= b@.len(),
    ensures
        r as int == le_val(b@, p as int, n as int),
{
    let blen = b.len();
    let mut acc: u128 = 0;
    let mut j: usize = 0;
    proof {
        lemma_le_val_bound(b@, p as int, n as int);
        lemma_pow0(256);
    }
    while j < n
        invariant
            n <= 16,
            p + n <= b@.len(),
            blen == b@.len(),
            0 <= j <= n,
            acc as int == le_val(b@, p + n - j, j as int),
            (acc as int) < pow(256, j as nat),
        decreases n - j,
    {
        proof {
            lemma_le_val_bound(b@, p + n - j - 1, j + 1);
            assert(pow(256, (j + 1) as nat) == 256 * pow(256, j as nat)) by {
                reveal_with_fuel(pow, 2);
            }
            lemma_pow_increases(256, (j + 1) as nat, 16);
            assert(pow(256, 16) == 0x100000000000000000000000000000000) by {
                reveal_with_fuel(pow, 17);
            }
            assert((acc as int) * 256 + 255 < pow(256, (j + 1) as nat)) by {
                lemma_mul_inequality(acc as int, pow(256, j as nat) - 1, 256);
                assert(256 * pow(256, j as nat) == pow(256, j as nat) * 256) by (nonlinear_arith);
            }
        }
        acc = acc * 256 + (b[p + n - 1 - j] as u128);
        j = j + 1;
    }
    acc
}

/// Reads one byte, exactly [`sp_byte`].
fn read_byte(b: &Vec<u8>, p: usize) -> (r: Result<(u8, usize), DecodeError>)
    ensures
        match r {
            Ok((v, p2)) => sp_byte(b@, p as int) == Ok::<_, DecodeError>((v, p2 as int)),
            Err(e) => sp_byte(b@, p as int) == Err::<(u8, int), _>(e),
        },
{
    if p < b.len() {
        Ok((b[p], p + 1))
    } else {
        Err(DecodeError::Truncated)
    }
}

/// Reads a little-endian `u32`, exactly [`sp_u32`].
fn read_u32(b: &Vec<u8>, p: usize) -> (r: Result<(u32, usize), DecodeError>)
    ensures
        match r {
            Ok((v, p2)) => sp_u32(b@, p as int) == Ok::<_, DecodeError>((v, p2 as int)),
            Err(e) => sp_u32(b@, p as int) == Err::<(u32, int), _>(e),
        },
{
    if p <= b.len() && b.len() - p >= 4 {
        proof {
            lemma_le_val_bound(b@, p as int, 4);
            assert(pow(256, 4) == 0x100000000) by {
                reveal_with_fuel(pow, 5);
            }
        }
        let v = read_le(b, p, 4);
        Ok((v as u32, p + 4))
    } else {
        Err(DecodeError::Truncated)
    }
}

/// Reads a little-endian `u64`, exactly [`sp_u64`].
fn read_u64(b: &Vec<u8>, p: usize) -> (r: Result<(u64, usize), DecodeError>)
    ensures
        match r {
            Ok((v, p2)) => sp_u64(b@, p as int) == Ok::<_, DecodeError>((v, p2 as int)),
            Err(e) => sp_u64(b@, p as int) == Err::<(u64, int), _>(e),
        },
{
    if p <= b.len() && b.len() - p >= 8 {
        proof {
            lemma_le_val_bound(b@, p as int, 8);
            assert(pow(256, 8) == 0x10000000000000000) by {
                reveal_with_fuel(pow, 9);
            }
        }
        let v = read_le(b, p, 8);
        Ok((v as u64, p + 8))
    } else {
        Err(DecodeError::Truncated)
    }
}

/// Reads a little-endian `u128`, exactly [`sp_u128`].
fn read_u128(b: &Vec<u8>, p: usize) -> (r: Result<(u128, usize), DecodeError>)
    ensures
        match r {
            Ok((v, p2)) => sp_u128(b@, p as int) == Ok::<_, DecodeError>((v, p2 as int)),
            Err(e) => sp_u128(b@, p as int) == Err::<(u128, int), _>(e),
        },
{
    if p <= b.len() && b.len() - p >= 16 {
        let v = read_le(b, p, 16);
        Ok((v, p + 16))
    } else {
        Err(DecodeError::Truncated)
    }
}

/// Reads `n` raw bytes, exactly [`sp_bytes`].
fn read_bytes(b: &Vec<u8>, p: usize, n: usize) -> (r: Result<(Vec<u8>, usize), DecodeError>)
    ensures
        match r {
            Ok((v, p2)) => sp_bytes(b@, p as int, n as int) == Ok::<_, DecodeError>((
                v@,
                p2 as int,
            )),
            Err(e) => sp_bytes(b@, p as int, n as int) == Err::<(Seq<u8>, int), _>(e),
        },
{
    if p <= b.len() && b.len() - p >= n {
        let mut v: Vec<u8> = Vec::new();
        let mut j: usize = 0;
        while j < n
            invariant
                p + n <= b@.len(),
                b@.len() <= usize::MAX,
                0 <= j <= n,
                v@ =~= b@.subrange(p as int, p + j),
            decreases n - j,
        {
            v.push(b[p + j]);
            proof {
                assert(v@ =~= b@.subrange(p as int, p + j + 1));
            }
            j = j + 1;
        }
        Ok((v, p + n))
    } else {
        Err(DecodeError::Truncated)
    }
}

/// Reads a length-prefixed identity, exactly [`sp_id`].
fn read_id(b: &Vec<u8>, p: usize) -> (r: Result<(Vec<u8>, usize), DecodeError>)
    ensures
        match r {
            Ok((v, p2)) => sp_id(b@, p as int) == Ok::<_, DecodeError>((v@, p2 as int)),
            Err(e) => sp_id(b@, p as int) == Err::<(Seq<u8>, int), _>(e),
        },
{
    match read_u32(b, p) {
        Err(e) => Err(e),
        Ok((len, p1)) => read_bytes(b, p1, len as usize),
    }
}

/// Reads an optional instant, exactly [`sp_opt_u64`].
fn read_opt_u64(b: &Vec<u8>, p: usize) -> (r: Result<(Option<u64>, usize), DecodeError>)
    ensures
        match r {
            Ok((v, p2)) => sp_opt_u64(b@, p as int) == Ok::<_, DecodeError>((v, p2 as int)),
            Err(e) => sp_opt_u64(b@, p as int) == Err::<(Option<u64>, int), _>(e),
        },
{
    match read_byte(b, p) {
        Err(e) => Err(e),
        Ok((tag, p1)) => {
            if tag == 0 {
                Ok((None, p1))
            } else if tag == 1 {
                match read_u64(b, p1) {
                    Err(e) => Err(e),
                    Ok((v, p2)) => Ok((Some(v), p2)),
                }
            } else {
                Err(DecodeError::BadTag)
            }
        },
    }
}

/// Reads the vesting schedule, exactly [`sp_vesting`].
fn read_vesting(b: &Vec<u8>, p: usize) -> (r: Result<(VestingSchedule, usize), DecodeError>)
    ensures
        match r {
            Ok((v, p2)) => sp_vesting(b@, p as int) == Ok::<_, DecodeError>((v@, p2 as int)),
            Err(e) => sp_vesting(b@, p as int) == Err::<(VestingModel, int), _>(e),
        },
{
    match read_byte(b, p) {
        Err(e) => Err(e),
        Ok((tag, p1)) => {
            if tag == 0 {
                Ok((VestingSchedule::Unset, p1))
            } else if tag == 1 {
                match read_u64(b, p1) {
                    Err(e) => Err(e),
                    Ok((start, p2)) => match read_u64(b, p2) {
                        Err(e) => Err(e),
                        Ok((cliff, p3)) => match read_u64(b, p3) {
                            Err(e) => Err(e),
                            Ok((end, p4)) => Ok((VestingSchedule::Timed { start, cliff, end }, p4)),
                        },
                    },
                }
            } else if tag == 2 {
                match read_bytes(b, p1, 32) {
                    Err(e) => Err(e),
                    Ok((hash, p2)) => Ok((VestingSchedule::Committed { hash }, p2)),
                }
            } else {
                Err(DecodeError::BadTag)
            }
        },
    }
}

/// Decodes a state blob, returning exactly what [`decode_spec`] says: the
/// well-formed decoded state, or the first reason the bytes are rejected.
pub fn decode_state(b: &Vec<u8>) -> (r: Result<LockupContractState, DecodeError>)
    ensures
        match r {
            Ok(s) => decode_spec(b@) == Ok::<StateModel, DecodeError>(s@) && s.wf(),
            Err(e) => decode_spec(b@) == Err::<StateModel, DecodeError>(e),
        },
{
    let (owner, p1) = match read_id(b, 0) {
        Ok(x) => x,
        Err(e) => {
            return Err(e);
        },
    };
    let (lockup_amount, p2) = match read_u128(b, p1) {
        Ok(x) => x,
        Err(e) => {
            return Err(e);
        },
    };
    let (lockup_duration, p3) = match read_u64(b, p2) {
        Ok(x) => x,
        Err(e) => {
            return Err(e);
        },
    };
    let (lockup_timestamp, p4) = match read_opt_u64(b, p3) {
        Ok(x) => x,
        Err(e) => {
            return Err(e);
        },
    };
    let (release_duration, p5) = match read_opt_u64(b, p4) {
        Ok(x) => x,
        Err(e) => {
            return Err(e);
        },
    };
    let (vesting_schedule, p6) = match read_vesting(b, p5) {
        Ok(x) => x,
        Err(e) => {
            return Err(e);
        },
    };
    let (transfers_enabled, p7) = match read_opt_u64(b, p6) {
        Ok(x) => x,
        Err(e) => {
            return Err(e);
        },
    };
    let (terminated_unvested_amount, p8) = match read_u128(b, p7) {
        Ok(x) => x,
        Err(e) => {
            return Err(e);
        },
    };
    let (staking_pool_whitelist_account, _p9) = match read_id(b, p8) {
        Ok(x) => x,
        Err(e) => {
            return Err(e);
        },
    };
    let invariants_hold = terminated_unvested_amount <= lockup_amount && match &vesting_schedule {
        VestingSchedule::Unset => true,
        VestingSchedule::Timed { start, cliff, end } => *start <= *cliff && *cliff <= *end,
        VestingSchedule::Committed { hash } => hash.len() == 32,
    };
    if invariants_hold {
        let s = LockupContractState {
            owner,
            lockup_amount,
            lockup_duration,
            lockup_timestamp,
            release_duration,
            vesting_schedule,
            transfers_enabled,
            terminated_unvested_amount,
            staking_pool_whitelist_account,
        };
        Ok(s)
    } else {
        Err(DecodeError::InvariantViolated)
    }
}

} // verus!
