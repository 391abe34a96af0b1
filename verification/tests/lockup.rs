use nb_lockup::account::check_account_id;
use nb_lockup::bug::is_affected;
use nb_lockup::calc::locked_amount;
use nb_lockup::decode::decode_state;
use nb_lockup::decode::DecodeError;
use nb_lockup::engine::locked_amount_text;
use nb_lockup::engine::ComputeError;
use nb_lockup::text::parse_timestamp;
use nb_lockup::text::u128_to_decimal;
use nb_lockup::LockupContractState;
use nb_lockup::VestingSchedule;

const HASH_V0: &str = "3kVY9qcVRoW3B5498SMX6R3rtSLiCdmBzKs7zcnzDJ7Q";
const HASH_V1: &str = "DiC9bKCqUHqoYqUXovAnqugiuntHWnM3cAc7KrgaHTu";

fn plain_state(
    lockup_amount: u128,
    lockup_duration: u64,
    lockup_timestamp: Option<u64>,
    release_duration: Option<u64>,
    vesting_schedule: VestingSchedule,
    transfers_enabled: Option<u64>,
    terminated_unvested_amount: u128,
) -> LockupContractState {
    LockupContractState {
        owner: b"owner.near".to_vec(),
        lockup_amount,
        lockup_duration,
        lockup_timestamp,
        release_duration,
        vesting_schedule,
        transfers_enabled,
        terminated_unvested_amount,
        staking_pool_whitelist_account: b"whitelist.near".to_vec(),
    }
}

fn push_id(out: &mut Vec<u8>, id: &[u8]) {
    out.extend_from_slice(&(id.len() as u32).to_le_bytes());
    out.extend_from_slice(id);
}

fn push_opt_u64(out: &mut Vec<u8>, v: Option<u64>) {
    match v {
        None => out.push(0),
        Some(x) => {
            out.push(1);
            out.extend_from_slice(&x.to_le_bytes());
        }
    }
}

fn encode_state(s: &LockupContractState) -> Vec<u8> {
    let mut out = Vec::new();
    push_id(&mut out, &s.owner);
    out.extend_from_slice(&s.lockup_amount.to_le_bytes());
    out.extend_from_slice(&s.lockup_duration.to_le_bytes());
    push_opt_u64(&mut out, s.lockup_timestamp);
    push_opt_u64(&mut out, s.release_duration);
    match &s.vesting_schedule {
        VestingSchedule::Unset => out.push(0),
        VestingSchedule::Timed { start, cliff, end } => {
            out.push(1);
            out.extend_from_slice(&start.to_le_bytes());
            out.extend_from_slice(&cliff.to_le_bytes());
            out.extend_from_slice(&end.to_le_bytes());
        }
        VestingSchedule::Committed { hash } => {
            out.push(2);
            out.extend_from_slice(hash);
        }
    }
    push_opt_u64(&mut out, s.transfers_enabled);
    out.extend_from_slice(&s.terminated_unvested_amount.to_le_bytes());
    push_id(&mut out, &s.staking_pool_whitelist_account);
    out
}

#[test]
fn step_release_all_or_nothing() {
    let s = plain_state(1_000_000, 500, Some(1000), None, VestingSchedule::Unset, None, 0);
    assert_eq!(locked_amount(&s, 1000, false), 1_000_000);
    assert_eq!(locked_amount(&s, 1499, false), 1_000_000);
    assert_eq!(locked_amount(&s, 1500, false), 0);
    assert_eq!(locked_amount(&s, u64::MAX, false), 0);
    assert_eq!(locked_amount(&s, 0, false), 1_000_000);
}

#[test]
fn linear_release_midpoint_odd_amount() {
    let s = plain_state(1_000_001, 0, Some(0), Some(1000), VestingSchedule::Unset, None, 0);
    let locked = locked_amount(&s, 500, false);
    assert_eq!(locked, 1_000_001 - 1_000_001 / 2);
    assert_eq!(locked, 500_001);
}

#[test]
fn linear_release_even_amount_and_edges() {
    let s = plain_state(1_000_000, 0, Some(100), Some(1000), VestingSchedule::Unset, None, 0);
    assert_eq!(locked_amount(&s, 99, false), 1_000_000);
    assert_eq!(locked_amount(&s, 100, false), 1_000_000);
    assert_eq!(locked_amount(&s, 600, false), 500_000);
    assert_eq!(locked_amount(&s, 1099, false), 1_000);
    assert_eq!(locked_amount(&s, 1100, false), 0);
}

#[test]
fn locked_amount_never_grows_over_time() {
    let s = plain_state(
        999_999_999,
        50,
        Some(1000),
        Some(2000),
        VestingSchedule::Timed { start: 900, cliff: 1800, end: 2600 },
        Some(800),
        12_345,
    );
    for bug in [false, true] {
        let mut prev = locked_amount(&s, 0, bug);
        assert!(prev <= s.lockup_amount);
        for t in [1, 799, 800, 999, 1000, 1500, 1799, 1800, 2599, 2600, 3000, u64::MAX] {
            let cur = locked_amount(&s, t, bug);
            assert!(cur <= prev, "re-locked at t={t}");
            assert!(cur <= s.lockup_amount);
            prev = cur;
        }
    }
}

#[test]
fn vesting_cliff_gates_release() {
    let s = plain_state(
        1_000_000,
        0,
        Some(0),
        Some(100),
        VestingSchedule::Timed { start: 0, cliff: 500, end: 1000 },
        None,
        0,
    );
    // Release finished long ago, but vesting holds everything before the cliff.
    assert_eq!(locked_amount(&s, 499, false), 1_000_000);
    // At the cliff the vested share follows the line anchored at start.
    assert_eq!(locked_amount(&s, 500, false), 500_000);
    assert_eq!(locked_amount(&s, 1000, false), 0);
}

#[test]
fn committed_schedule_does_not_gate() {
    let s = plain_state(
        1_000,
        10,
        Some(100),
        None,
        VestingSchedule::Committed { hash: vec![7u8; 32] },
        None,
        0,
    );
    assert_eq!(locked_amount(&s, 109, false), 1_000);
    assert_eq!(locked_amount(&s, 110, false), 0);
}

#[test]
fn termination_floor() {
    let s = plain_state(100, 10, Some(10), None, VestingSchedule::Unset, None, 30);
    // Before any release only the clawed-back tokens are free.
    assert_eq!(locked_amount(&s, 5, false), 70);
    // After full release nothing stays locked and nothing goes negative.
    assert_eq!(locked_amount(&s, 20, false), 0);
}

#[test]
fn release_gated_on_transfers_when_no_timestamp() {
    let s = plain_state(500, 100, None, None, VestingSchedule::Unset, Some(1000), 0);
    assert_eq!(locked_amount(&s, 1099, false), 500);
    assert_eq!(locked_amount(&s, 1100, false), 0);
    // With neither instant known, nothing ever releases.
    let gated = plain_state(500, 100, None, None, VestingSchedule::Unset, None, 0);
    assert_eq!(locked_amount(&gated, u64::MAX, false), 500);
}

#[test]
fn bug_mode_changes_affected_fixture() {
    assert!(is_affected("contributors.lockup.near", HASH_V0));
    let s = plain_state(1000, 0, Some(2000), Some(1000), VestingSchedule::Unset, Some(1000), 0);
    let straight = locked_amount(&s, 1600, false);
    let buggy = locked_amount(&s, 1600, true);
    // The defective versions anchored the window at transfers-enabled.
    assert_eq!(straight, 1000);
    assert_eq!(buggy, 400);
    assert_ne!(straight, buggy);
}

#[test]
fn bug_mode_noop_for_unknown_account() {
    assert!(!is_affected("alice.near", HASH_V0));
    assert!(!is_affected("alice.near", HASH_V1));
    assert!(!is_affected("alice.near", "somethingelse"));
    assert!(!is_affected("contributors.lockup.near", "somethingelse"));
    assert!(is_affected("foundation.lockup.near", HASH_V1));
    assert!(!is_affected("foundation.lockup.near", HASH_V0));
}

#[test]
fn decode_round_trip_timed_vesting() {
    let s = plain_state(
        77_000_000_000_000_000_000_000_000,
        3600,
        Some(1_600_000_000_000_000_000),
        Some(86_400),
        VestingSchedule::Timed { start: 5, cliff: 6, end: 9 },
        Some(42),
        1_000_000,
    );
    let bytes = encode_state(&s);
    let d = decode_state(&bytes).expect("well-formed bytes decode");
    assert_eq!(d.owner, s.owner);
    assert_eq!(d.lockup_amount, s.lockup_amount);
    assert_eq!(d.lockup_duration, s.lockup_duration);
    assert_eq!(d.lockup_timestamp, s.lockup_timestamp);
    assert_eq!(d.release_duration, s.release_duration);
    match (&d.vesting_schedule, &s.vesting_schedule) {
        (
            VestingSchedule::Timed { start: a, cliff: b, end: c },
            VestingSchedule::Timed { start: x, cliff: y, end: z },
        ) => {
            assert_eq!((a, b, c), (x, y, z));
        }
        _ => panic!("vesting variant changed in the round trip"),
    }
    assert_eq!(d.transfers_enabled, s.transfers_enabled);
    assert_eq!(d.terminated_unvested_amount, s.terminated_unvested_amount);
    assert_eq!(d.staking_pool_whitelist_account, s.staking_pool_whitelist_account);
}

#[test]
fn decode_round_trip_committed_hash() {
    let s = plain_state(
        10,
        1,
        None,
        None,
        VestingSchedule::Committed { hash: (0u8..32).collect() },
        None,
        0,
    );
    let bytes = encode_state(&s);
    let d = decode_state(&bytes).expect("well-formed bytes decode");
    match &d.vesting_schedule {
        VestingSchedule::Committed { hash } => {
            assert_eq!(hash.len(), 32);
            assert_eq!(hash[31], 31);
        }
        _ => panic!("vesting variant changed in the round trip"),
    }
}

#[test]
fn decode_ignores_trailing_bytes() {
    let s = plain_state(5, 1, None, None, VestingSchedule::Unset, None, 0);
    let mut bytes = encode_state(&s);
    bytes.extend_from_slice(b"future fields");
    let d = decode_state(&bytes).expect("trailing bytes are ignored");
    assert_eq!(d.lockup_amount, 5);
}

#[test]
fn decode_rejects_truncation() {
    let s = plain_state(5, 1, Some(7), None, VestingSchedule::Unset, None, 0);
    let bytes = encode_state(&s);
    for cut in [0, 3, 4, 10, bytes.len() - 1] {
        assert!(matches!(decode_state(&bytes[..cut].to_vec()), Err(DecodeError::Truncated)));
    }
}

#[test]
fn decode_rejects_bad_tags() {
    let s = plain_state(5, 1, Some(7), None, VestingSchedule::Unset, None, 0);
    let bytes = encode_state(&s);
    // The lockup_timestamp option tag sits right after the 14-byte owner id,
    // the 16-byte amount and the 8-byte duration.
    let tag_at = 4 + 10 + 16 + 8;
    let mut bad = bytes.clone();
    bad[tag_at] = 2;
    assert!(matches!(decode_state(&bad), Err(DecodeError::BadTag)));
    // The vesting tag follows the 9-byte timestamp and 1-byte absent window.
    let mut bad_vesting = bytes.clone();
    bad_vesting[tag_at + 9 + 1] = 3;
    assert!(matches!(decode_state(&bad_vesting), Err(DecodeError::BadTag)));
}

#[test]
fn decode_rejects_invariant_violations() {
    // More clawed back than was ever locked.
    let over = plain_state(5, 1, None, None, VestingSchedule::Unset, None, 6);
    assert!(matches!(decode_state(&encode_state(&over)), Err(DecodeError::InvariantViolated)));
    // A cliff outside [start, end].
    let skew = plain_state(
        5,
        1,
        None,
        None,
        VestingSchedule::Timed { start: 10, cliff: 9, end: 20 },
        None,
        0,
    );
    assert!(matches!(decode_state(&encode_state(&skew)), Err(DecodeError::InvariantViolated)));
}

#[test]
fn parse_timestamp_values() {
    assert_eq!(parse_timestamp("0"), 0);
    assert_eq!(parse_timestamp("1600000000000000000"), 1_600_000_000_000_000_000);
    assert_eq!(parse_timestamp("007"), 7);
    assert_eq!(parse_timestamp("18446744073709551615"), u64::MAX);
}

#[test]
fn parse_timestamp_malformed_defaults_to_zero() {
    assert_eq!(parse_timestamp(""), 0);
    assert_eq!(parse_timestamp("abc"), 0);
    assert_eq!(parse_timestamp("12x4"), 0);
    assert_eq!(parse_timestamp("-5"), 0);
    assert_eq!(parse_timestamp("+5"), 0);
    assert_eq!(parse_timestamp(" 5"), 0);
    assert_eq!(parse_timestamp("18446744073709551616"), 0);
    assert_eq!(parse_timestamp("99999999999999999999999999"), 0);
}

#[test]
fn decimal_rendering() {
    assert_eq!(u128_to_decimal(0), "0");
    assert_eq!(u128_to_decimal(7), "7");
    assert_eq!(u128_to_decimal(1_000_000), "1000000");
    assert_eq!(u128_to_decimal(u128::MAX), "340282366920938463463374607431768211455");
}

#[test]
fn account_id_rules() {
    assert!(check_account_id("alice.near"));
    assert!(check_account_id("contributors.lockup.near"));
    assert!(check_account_id("a-b_c.d0"));
    assert!(check_account_id("ab"));
    assert!(!check_account_id("a"));
    assert!(!check_account_id(""));
    assert!(!check_account_id("Alice.near"));
    assert!(!check_account_id(".alice"));
    assert!(!check_account_id("alice."));
    assert!(!check_account_id("a..b"));
    assert!(!check_account_id("a b"));
    let long = "a".repeat(64);
    assert!(check_account_id(&long));
    let too_long = "a".repeat(65);
    assert!(!check_account_id(&too_long));
}

#[test]
fn end_to_end_text_scenario() {
    let s = plain_state(1_000_000, 500, Some(1000), None, VestingSchedule::Unset, None, 0);
    let bytes = encode_state(&s);
    assert_eq!(
        locked_amount_text(&bytes, "alice.near", "nohash", "1000"),
        Ok("1000000".to_string())
    );
    assert_eq!(
        locked_amount_text(&bytes, "alice.near", "nohash", "1499"),
        Ok("1000000".to_string())
    );
    assert_eq!(locked_amount_text(&bytes, "alice.near", "nohash", "1500"), Ok("0".to_string()));
}

#[test]
fn end_to_end_malformed_timestamp_acts_like_zero() {
    let s = plain_state(1_000_000, 500, Some(1000), None, VestingSchedule::Unset, None, 0);
    let bytes = encode_state(&s);
    let at_zero = locked_amount_text(&bytes, "alice.near", "nohash", "0");
    assert_eq!(at_zero, Ok("1000000".to_string()));
    assert_eq!(locked_amount_text(&bytes, "alice.near", "nohash", ""), at_zero);
    assert_eq!(locked_amount_text(&bytes, "alice.near", "nohash", "not-a-number"), at_zero);
    assert_eq!(
        locked_amount_text(&bytes, "alice.near", "nohash", "99999999999999999999999999"),
        at_zero
    );
}

#[test]
fn end_to_end_errors() {
    let s = plain_state(1_000_000, 500, Some(1000), None, VestingSchedule::Unset, None, 0);
    let bytes = encode_state(&s);
    assert_eq!(
        locked_amount_text(&bytes, "Alice", "nohash", "0"),
        Err(ComputeError::InvalidAccountId)
    );
    assert_eq!(
        locked_amount_text(&bytes[..5].to_vec(), "alice.near", "nohash", "0"),
        Err(ComputeError::Decode(DecodeError::Truncated))
    );
}

#[test]
fn end_to_end_bug_table_selects_mode() {
    let s = plain_state(1000, 0, Some(2000), Some(1000), VestingSchedule::Unset, Some(1000), 0);
    let bytes = encode_state(&s);
    let affected = locked_amount_text(&bytes, "contributors.lockup.near", HASH_V0, "1600");
    let unaffected = locked_amount_text(&bytes, "alice.near", HASH_V0, "1600");
    assert_eq!(affected, Ok("400".to_string()));
    assert_eq!(unaffected, Ok("1000".to_string()));
}

#[test]
fn repeated_calls_are_deterministic() {
    // Each call owns its state; interleaving calls for different accounts
    // changes nothing about any one of them.
    let states: Vec<LockupContractState> = (1u64..6)
        .map(|k| {
            plain_state(
                1_000 * k as u128,
                100 * k,
                Some(1_000 + k),
                if k % 2 == 0 { Some(500) } else { None },
                VestingSchedule::Unset,
                None,
                0,
            )
        })
        .collect();
    let first: Vec<u128> = states.iter().map(|s| locked_amount(s, 1_300, false)).collect();
    let second: Vec<u128> = states.iter().rev().map(|s| locked_amount(s, 1_300, false)).collect();
    for (i, v) in first.iter().enumerate() {
        assert_eq!(*v, second[second.len() - 1 - i]);
    }
}
