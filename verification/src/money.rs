//! Fixed-point reading of the decimal money texts on a receipt (`total` and
//! each item's `price`). A money text is one or more digits, a decimal
//! point, and exactly two fraction digits; its value is kept as integer
//! cents, so the rule boundaries (exact quarters, round dollars) are free of
//! representation error. Text in any other shape has no value: the scoring
//! rules treat it as not qualifying, never as a fault.

use vstd::prelude::*;
use vstd::string::*;

verus! {

/// An ASCII decimal digit.
pub open spec fn is_digit(c: char) -> bool {
    48 <= c as u32 <= 57
}

/// The numeric value of one ASCII digit.
pub open spec fn digit_val(c: char) -> nat {
    ((c as u32) - 48) as nat
}

/// Every character of `s` is an ASCII digit.
pub open spec fn all_digits(s: Seq<char>) -> bool {
    forall|i: int| 0 <= i < s.len() ==> is_digit(s[i])
}

/// The base-ten value of a digit string.
pub open spec fn digits_value(s: Seq<char>) -> nat
    decreases s.len(),
{
    if s.len() == 0 {
        0
    } else {
        digits_value(s.drop_last()) * 10 + digit_val(s.last())
    }
}

/// A money text: one or more digits, `'.'`, then exactly two digits.
pub open spec fn money_format(s: Seq<char>) -> bool {
    &&& s.len() >= 4
    &&& all_digits(s.take(s.len() - 3))
    &&& s[s.len() - 3] == '.'
    &&& is_digit(s[s.len() - 2])
    &&& is_digit(s[s.len() - 1])
}

/// The value of a money text in cents.
pub open spec fn money_value(s: Seq<char>) -> nat {
    digits_value(s.take(s.len() - 3)) * 100 + digit_val(s[s.len() - 2]) * 10 + digit_val(
        s[s.len() - 1],
    )
}

/// What `parse_cents` returns: the value in cents of a well-formed money
/// text whose value fits the result type, and nothing otherwise.
pub open spec fn spec_parse_cents(s: Seq<char>) -> Option<u64> {
    if money_format(s) && money_value(s) <= u64::MAX {
        Some(money_value(s) as u64)
    } else {
        None
    }
}

/// A longer digit prefix never has a smaller value.
proof fn lemma_digits_value_prefix_le(s: Seq<char>, i: int, j: int)
    requires
        0 <= i <= j <= s.len(),
    ensures
        digits_value(s.take(i)) <= digits_value(s.take(j)),
    decreases j - i,
{
    if i < j {
        lemma_digits_value_prefix_le(s, i, j - 1);
        assert(s.take(j).drop_last() =~= s.take(j - 1));
        assert(digits_value(s.take(j - 1)) * 10 >= digits_value(s.take(j - 1)));
    }
}

/// Reads a money text as integer cents; yields nothing where the text is
/// not in money shape or its value does not fit.
pub fn parse_cents(s: &str) -> (r: Option<u64>)
    ensures
        r == spec_parse_cents(s@),
{
    let n: usize = s.unicode_len();
    if n < 4 {
        return None;
    }
    if s.get_char(n - 3) != '.' {
        return None;
    }
    let mut i: usize = 0;
    let mut acc: u64 = 0;
    while i < n - 3
        invariant
            4 <= n == s@.len(),
            0 <= i <= n - 3,
            all_digits(s@.take(i as int)),
            acc == digits_value(s@.take(i as int)),
        decreases n - 3 - i,
    {
        let c: char = s.get_char(i);
        let v: u32 = c as u32;
        if v < 48 || v > 57 {
            proof {
                assert(!is_digit(s@[i as int]));
                assert(s@.take(s@.len() - 3)[i as int] == s@[i as int]);
            }
            return None;
        }
        let step: Option<u64> = acc.checked_mul(10);
        match step {
            Some(a) => {
                match a.checked_add((v - 48) as u64) {
                    Some(b) => {
                        acc = b;
                    },
                    None => {
                        proof {
                            lemma_value_large_means_no_fit(s@, i as int);
                        }
                        return None;
                    },
                }
            },
            None => {
                proof {
                    lemma_value_large_means_no_fit(s@, i as int);
                }
                return None;
            },
        }
        proof {
            assert(s@.take(i + 1).drop_last() =~= s@.take(i as int));
        }
        i = i + 1;
    }
    let c1: char = s.get_char(n - 2);
    let v1: u32 = c1 as u32;
    if v1 < 48 || v1 > 57 {
        return None;
    }
    let c2: char = s.get_char(n - 1);
    let v2: u32 = c2 as u32;
    if v2 < 48 || v2 > 57 {
        return None;
    }
    let frac: u64 = ((v1 - 48) * 10 + (v2 - 48)) as u64;
    match acc.checked_mul(100) {
        Some(a) => {
            match a.checked_add(frac) {
                Some(cents) => {
                    proof {
                        assert(money_format(s@));
                        assert(money_value(s@) == cents);
                    }
                    Some(cents)
                },
                None => None,
            }
        },
        None => None,
    }
}

/// Once some digit prefix of the integer part is already past `u64::MAX`,
/// the whole money text has no value that fits.
proof fn lemma_value_large_means_no_fit(s: Seq<char>, i: int)
    requires
        s.len() >= 4,
        0 <= i < s.len() - 3,
        digits_value(s.take(i)) * 10 + digit_val(s[i]) > u64::MAX,
    ensures
        spec_parse_cents(s) is None,
{
    if money_format(s) {
        assert(s.take(i + 1).drop_last() =~= s.take(i));
        assert(digits_value(s.take(i + 1)) > u64::MAX);
        lemma_digits_value_prefix_le(s, i + 1, s.len() - 3);
        let dv = digits_value(s.take(s.len() - 3));
        assert(dv * 100 >= dv);
        assert(money_value(s) > u64::MAX);
    }
}

} // verus!
