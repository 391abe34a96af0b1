//! Account-identity validation: the exact-match rules an account id must
//! satisfy before any fetch is attempted on its behalf.

use vstd::prelude::*;

use vstd::string::StrSliceExecFns;

verus! {

/// A lowercase letter or digit.
pub open spec fn is_account_alnum(c: char) -> bool {
    ('a' <= c && c <= 'z') || ('0' <= c && c <= '9')
}

/// One of the permitted separators inside an account id.
pub open spec fn is_account_separator(c: char) -> bool {
    c == '-' || c == '_' || c == '.'
}

/// A well-formed account id: 2 to 64 characters, each a lowercase letter, a
/// digit or a separator; it begins and ends with a letter or digit, and no
/// two separators are adjacent.
pub open spec fn valid_account_id(s: Seq<char>) -> bool {
    &&& 2 <= s.len() <= 64
    &&& forall|i: int|
        0 <= i < s.len() ==> is_account_alnum(s[i]) || is_account_separator(s[i])
    &&& is_account_alnum(s[0])
    &&& is_account_alnum(s[s.len() - 1])
    &&& forall|i: int|
        0 <= i < s.len() - 1 ==> !(#[trigger] is_account_separator(s[i]) && is_account_separator(
            s[i + 1],
        ))
}

/// Decides [`valid_account_id`] for a caller-supplied identity.
pub fn check_account_id(s: &str) -> (r: bool)
    ensures
        r == valid_account_id(s@),
{
    let n = s.unicode_len();
    if n < 2 || n > 64 {
        return false;
    }
    let mut prev_sep = false;
    let mut i: usize = 0;
    while i < n
        invariant
            2 <= n <= 64,
            n == s@.len(),
            0 <= i <= n,
            forall|j: int|
                0 <= j < i ==> is_account_alnum(s@[j]) || is_account_separator(s@[j]),
            i > 0 ==> is_account_alnum(s@[0]),
            forall|j: int|
                0 <= j < i - 1 ==> !(#[trigger] is_account_separator(s@[j])
                    && is_account_separator(s@[j + 1])),
            i > 0 ==> prev_sep == is_account_separator(s@[i - 1]),
        decreases n - i,
    {
        let c = s.get_char(i);
        let cu = c as u32;
        let alnum = (cu >= 97 && cu <= 122) || (cu >= 48 && cu <= 57);
        let sep = cu == 45 || cu == 95 || cu == 46;
        proof {
            assert(alnum == is_account_alnum(s@[i as int]));
            assert(sep == is_account_separator(s@[i as int]));
        }
        if !alnum && !sep {
            return false;
        }
        if i == 0 && !alnum {
            return false;
        }
        if prev_sep && sep {
            assert(is_account_separator(s@[i - 1]) && is_account_separator(s@[i as int]));
            return false;
        }
        prev_sep = sep;
        i = i + 1;
    }
    let last = s.get_char(n - 1);
    let lu = last as u32;
    let last_alnum = (lu >= 97 && lu <= 122) || (lu >= 48 && lu <= 57);
    proof {
        assert(last_alnum == is_account_alnum(s@[n - 1]));
    }
    last_alnum
}

} // verus!
