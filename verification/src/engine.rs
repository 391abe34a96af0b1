//! The sequential heart of a `locked` call: everything that happens between
//! the raw values fetched from the ledger node and the text handed back to
//! the caller. The asynchronous shell around it validates the account id
//! first, fetches the state blob and the code hash, and then runs
//! [`locked_amount_text`] on what came back.

use vstd::prelude::*;

use crate::account::check_account_id;
use crate::account::valid_account_id;
use crate::bug::in_bug_table;
use crate::bug::is_affected;
use crate::calc::locked_amount;
use crate::calc::spec_locked_amount;
use crate::decode::decode_spec;
use crate::decode::decode_state;
use crate::decode::DecodeError;
use crate::laws::lemma_locked_amount_in_range;
use crate::text::all_digits;
use crate::text::decimal_of;
use crate::text::digit_val;
use crate::text::digits_val;
use crate::text::parse_timestamp;
use crate::text::timestamp_of;
use crate::text::u128_to_decimal;

verus! {

/// Why a call produced no amount.
#[derive(Clone, Copy, Debug, PartialEq, Eq, Structural)]
pub enum ComputeError {
    /// The account identity is malformed; nothing was computed.
    InvalidAccountId,
    /// The fetched state blob was rejected by the decoder.
    Decode(DecodeError),
}

/// What a call answers once the two fetches are in: the locked amount of
/// the decoded state at the denoted timestamp, under the bug flag the
/// account and code hash select, rendered in base 10 — or the exact error.
pub open spec fn spec_locked_text(
    state_bytes: Seq<u8>,
    account: Seq<char>,
    code_hash: Seq<char>,
    timestamp_text: Seq<char>,
) -> Result<Seq<char>, ComputeError> {
    if !valid_account_id(account) {
        Err(ComputeError::InvalidAccountId)
    } else {
        match decode_spec(state_bytes) {
            Err(e) => Err(ComputeError::Decode(e)),
            Ok(m) => Ok(
                decimal_of(
                    spec_locked_amount(
                        m,
                        timestamp_of(timestamp_text),
                        in_bug_table(account, code_hash),
                    ) as nat,
                ),
            ),
        }
    }
}

/// Decodes the fetched state, detects the bug-compatibility mode, reads the
/// timestamp argument (malformed text deliberately counts as `0`), computes
/// the locked amount and renders it in base 10: exactly
/// [`spec_locked_text`].
pub fn locked_amount_text(
    state_bytes: &Vec<u8>,
    account: &str,
    code_hash: &str,
    timestamp_text: &str,
) -> (r: Result<String, ComputeError>)
    ensures
        match r {
            Ok(text) => spec_locked_text(state_bytes@, account@, code_hash@, timestamp_text@)
                == Ok::<Seq<char>, ComputeError>(text@),
            Err(e) => spec_locked_text(state_bytes@, account@, code_hash@, timestamp_text@)
                == Err::<Seq<char>, ComputeError>(e),
        },
{
    if !check_account_id(account) {
        return Err(ComputeError::InvalidAccountId);
    }
    let state = match decode_state(state_bytes) {
        Ok(s) => s,
        Err(e) => {
            return Err(ComputeError::Decode(e));
        },
    };
    let bug = is_affected(account, code_hash);
    let t = parse_timestamp(timestamp_text);
    let amount = locked_amount(&state, t, bug);
    proof {
        lemma_locked_amount_in_range(state@, t, bug);
    }
    Ok(u128_to_decimal(amount))
}

/// Malformed timestamp text — empty, non-numeric or too large for a `u64` —
/// is deliberately answered like the timestamp `0`, the conservative "fully
/// locked" reading, rather than failing the call.
pub proof fn lemma_malformed_timestamp_defaults(
    state_bytes: Seq<u8>,
    account: Seq<char>,
    code_hash: Seq<char>,
    bad: Seq<char>,
)
    requires
        !(bad.len() > 0 && all_digits(bad) && digits_val(bad) <= u64::MAX),
    ensures
        spec_locked_text(state_bytes, account, code_hash, bad) == spec_locked_text(
            state_bytes,
            account,
            code_hash,
            "0"@,
        ),
{
    reveal_strlit("0");
    assert("0"@.drop_last() =~= Seq::<char>::empty());
    assert(digits_val(Seq::<char>::empty()) == 0);
    assert(digits_val("0"@) == digits_val(Seq::<char>::empty()) * 10 + digit_val('0'));
    assert(digits_val("0"@) == 0);
    assert(timestamp_of("0"@) == 0);
    assert(timestamp_of(bad) == 0);
}

} // verus!
