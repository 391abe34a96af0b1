//! The bug detector: an exact-match lookup deciding whether the contract
//! deployed at an account is one of the versions carrying the historical
//! release-schedule defect.
//!
//! The table below is a versioned constant, maintained by hand: it pairs
//! each affected account with the content hash (in its canonical base-58
//! text form) of the defective contract build deployed there. A pair absent
//! from the table is never affected.

use vstd::prelude::*;

use vstd::string::StrSliceExecFns;

verus! {

/// Character-by-character string equality, proved to decide view equality.
fn str_eq(a: &str, b: &str) -> (r: bool)
    ensures
        r == (a@ == b@),
{
    let alen = a.unicode_len();
    let blen = b.unicode_len();
    if alen != blen {
        return false;
    }
    let mut i: usize = 0;
    while i < alen
        invariant
            0 <= i <= alen,
            alen == a@.len(),
            alen == b@.len(),
            forall|j: int| 0 <= j < i ==> a@[j] == b@[j],
        decreases alen - i,
    {
        if a.get_char(i) != b.get_char(i) {
            return false;
        }
        i = i + 1;
    }
    proof {
        assert(a@ =~= b@);
    }
    true
}

/// The fixed table of deployments known to carry the defect: the account
/// and the base-58 text of the code hash deployed there, matched exactly.
pub open spec fn in_bug_table(account: Seq<char>, code_hash: Seq<char>) -> bool {
    ||| (account == "contributors.lockup.near"@ && code_hash
        == "3kVY9qcVRoW3B5498SMX6R3rtSLiCdmBzKs7zcnzDJ7Q"@)
    ||| (account == "foundation.lockup.near"@ && code_hash
        == "DiC9bKCqUHqoYqUXovAnqugiuntHWnM3cAc7KrgaHTu"@)
}

/// Whether the contract deployed at `account` with code hash `code_hash`
/// (given as its canonical base-58 text) carries the release-schedule
/// defect: an exact-match lookup in the fixed table, nothing fuzzy.
pub fn is_affected(account: &str, code_hash: &str) -> (r: bool)
    ensures
        r == in_bug_table(account@, code_hash@),
{
    (str_eq(account, "contributors.lockup.near") && str_eq(
        code_hash,
        "3kVY9qcVRoW3B5498SMX6R3rtSLiCdmBzKs7zcnzDJ7Q",
    )) || (str_eq(account, "foundation.lockup.near") && str_eq(
        code_hash,
        "DiC9bKCqUHqoYqUXovAnqugiuntHWnM3cAc7KrgaHTu",
    ))
}

/// An account absent from the table is never affected, whatever code hash
/// is deployed at it.
pub proof fn lemma_unaffected_account(account: Seq<char>)
    requires
        account != "contributors.lockup.near"@,
        account != "foundation.lockup.near"@,
    ensures
        forall|code_hash: Seq<char>| !in_bug_table(account, code_hash),
{
}

} // verus!
