//! Plain-text edges of the engine: reading the caller's timestamp argument
//! and rendering the resulting amount as a base-10 string.

use vstd::prelude::*;

use vstd::arithmetic::div_mod::lemma_div_is_strictly_smaller;
use vstd::arithmetic::div_mod::lemma_fundamental_div_mod;
use vstd::arithmetic::div_mod::lemma_mod_bound;
use vstd::string::StrSliceExecFns;
use vstd::string::StringExecFns;

verus! {

/// Whether `c` is a decimal digit.
pub open spec fn is_digit_char(c: char) -> bool {
    '0' <= c && c <= '9'
}

/// The numeric value of the digit `c`.
pub open spec fn digit_val(c: char) -> int {
    c as int - '0' as int
}

/// The number written by a sequence of decimal digits, most significant
/// first.
pub open spec fn digits_val(s: Seq<char>) -> int
    decreases s.len(),
{
    if s.len() == 0 {
        0
    } else {
        digits_val(s.drop_last()) * 10 + digit_val(s.last())
    }
}

/// Whether every character of `s` is a decimal digit.
pub open spec fn all_digits(s: Seq<char>) -> bool {
    forall|i: int| 0 <= i < s.len() ==> is_digit_char(s[i])
}

/// The timestamp that a caller-supplied text denotes: its value when the
/// text is a decimal number that fits in a `u64`, and the deliberate
/// fallback `0` (fully locked) on any malformed input.
pub open spec fn timestamp_of(s: Seq<char>) -> u64 {
    if s.len() > 0 && all_digits(s) && digits_val(s) <= u64::MAX {
        digits_val(s) as u64
    } else {
        0
    }
}

/// A sequence of digits denotes a non-negative number.
proof fn lemma_digits_nonneg(s: Seq<char>)
    requires
        all_digits(s),
    ensures
        digits_val(s) >= 0,
    decreases s.len(),
{
    if s.len() > 0 {
        lemma_digits_nonneg(s.drop_last());
    }
}

/// Extending a sequence of digits never shrinks the number it denotes.
proof fn lemma_digits_prefix_grows(s: Seq<char>, i: int)
    requires
        all_digits(s),
        0 <= i <= s.len(),
    ensures
        digits_val(s.take(i)) <= digits_val(s),
    decreases s.len() - i,
{
    if i == s.len() {
        assert(s.take(i) =~= s);
    } else {
        assert(s.take(i + 1).drop_last() =~= s.take(i));
        assert(all_digits(s.take(i)));
        lemma_digits_nonneg(s.take(i));
        assert(digit_val(s.take(i + 1).last()) >= 0);
        lemma_digits_prefix_grows(s, i + 1);
    }
}

/// Reads the caller's timestamp argument: the denoted value for a decimal
/// number that fits in a `u64`, and `0` — the conservative "fully locked"
/// answer — for empty, non-numeric or oversized text.
pub fn parse_timestamp(text: &str) -> (r: u64)
    ensures
        r == timestamp_of(text@),
{
    let n = text.unicode_len();
    if n == 0 {
        return 0;
    }
    let mut acc: u64 = 0;
    let mut i: usize = 0;
    while i < n
        invariant
            0 < n == text@.len(),
            0 <= i <= n,
            all_digits(text@.take(i as int)),
            acc as int == digits_val(text@.take(i as int)),
        decreases n - i,
    {
        let c = text.get_char(i);
        let cu = c as u32;
        if cu < 48 || cu > 57 {
            assert(!is_digit_char(text@[i as int]));
            return 0;
        }
        let d = (cu - 48) as u64;
        proof {
            assert(text@.take(i as int + 1).drop_last() =~= text@.take(i as int));
            assert(d as int == digit_val(text@[i as int]));
        }
        if acc > (u64::MAX - d) / 10 {
            proof {
                lemma_fundamental_div_mod(u64::MAX - d, 10);
                lemma_mod_bound(u64::MAX - d, 10);
                assert(digits_val(text@.take(i as int + 1)) > u64::MAX);
                if all_digits(text@) {
                    lemma_digits_prefix_grows(text@, i as int + 1);
                }
            }
            return 0;
        }
        proof {
            lemma_fundamental_div_mod(u64::MAX - d, 10);
            lemma_mod_bound(u64::MAX - d, 10);
        }
        acc = acc * 10 + d;
        i = i + 1;
    }
    proof {
        assert(text@.take(n as int) =~= text@);
    }
    acc
}

/// The decimal digit `d` as a character.
pub open spec fn digit_char(d: nat) -> char
    recommends
        d < 10,
{
    "0123456789"@[d as int]
}

/// The base-10 text of `n`, most significant digit first, no leading zero
/// except for `n == 0` itself.
pub open spec fn decimal_of(n: nat) -> Seq<char>
    decreases n,
{
    if n < 10 {
        seq![digit_char(n)]
    } else {
        decimal_of(n / 10).push(digit_char(n % 10))
    }
}

/// The digits of `v`, least significant first, each below ten, turned into
/// characters in reading order.
spec fn chars_of_rev_digits(v: Seq<u8>) -> Seq<char> {
    v.map_values(|d: u8| digit_char(d as nat)).reverse()
}

/// Renders `n` in base 10, exactly [`decimal_of`].
pub fn u128_to_decimal(n: u128) -> (r: String)
    ensures
        r@ == decimal_of(n as nat),
{
    let digits_lit = "0123456789";
    proof {
        reveal_strlit("0123456789");
    }
    let mut rev: Vec<u8> = Vec::new();
    rev.push((n % 10) as u8);
    let mut m = n / 10;
    proof {
        lemma_fundamental_div_mod(n as int, 10);
        lemma_mod_bound(n as int, 10);
        assert(rev@.map_values(|d: u8| digit_char(d as nat)).reverse() =~= seq![
            digit_char((n % 10) as nat),
        ]);
    }
    while m > 0
        invariant
            rev@.len() > 0,
            forall|j: int| 0 <= j < rev@.len() ==> rev@[j] < 10,
            decimal_of(n as nat) == if m > 0 {
                decimal_of(m as nat) + chars_of_rev_digits(rev@)
            } else {
                chars_of_rev_digits(rev@)
            },
        decreases m,
    {
        let d = (m % 10) as u8;
        let ghost old_rev = rev@;
        rev.push(d);
        proof {
            lemma_fundamental_div_mod(m as int, 10);
            lemma_mod_bound(m as int, 10);
            lemma_div_is_strictly_smaller(m as int, 10);
            assert(chars_of_rev_digits(old_rev.push(d)) =~= seq![digit_char(d as nat)]
                + chars_of_rev_digits(old_rev));
        }
        m = m / 10;
    }
    let mut out = String::new();
    let mut k: usize = 0;
    let len = rev.len();
    while k < len
        invariant
            len == rev@.len(),
            0 <= k <= len,
            forall|j: int| 0 <= j < rev@.len() ==> rev@[j] < 10,
            out@ =~= chars_of_rev_digits(rev@).take(k as int),
            digits_lit@ == "0123456789"@,
            digits_lit.is_ascii(),
            digits_lit@.len() == 10,
        decreases len - k,
    {
        let d = rev[len - 1 - k];
        let ch = digits_lit.substring_ascii(d as usize, d as usize + 1);
        proof {
            reveal_strlit("0123456789");
            assert(ch@ =~= seq![digit_char(d as nat)]);
            assert(chars_of_rev_digits(rev@).take(k as int + 1) =~= chars_of_rev_digits(
                rev@,
            ).take(k as int).push(digit_char(rev@[(len - 1 - k) as int] as nat)));
        }
        out.append(ch);
        k = k + 1;
    }
    proof {
        assert(chars_of_rev_digits(rev@).take(len as int) =~= chars_of_rev_digits(rev@));
    }
    out
}

} // verus!
