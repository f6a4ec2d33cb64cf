//! Checksum validation for the Brazilian taxpayer id (CPF).
//!
//! A CPF is eleven digits; the last two are check digits. Each check digit
//! is a weighted sum of the digits before it, reduced modulo 11 and mapped
//! to 0 when the remainder is below 2, to 11 minus the remainder
//! otherwise. An id whose eleven digits are all equal is rejected outright,
//! as such strings pass the checksum but are trivially forged.

use vstd::prelude::*;
use crate::digits::{
    is_digit_char, digit_val, spec_digits_of, extract_digits, char_to_digit,
    lemma_digits_of_are_digits,
};

verus! {

/// The weighted sum of the first `n` digit characters of `d`: the digit at
/// position `i` weighs `base - i`.
pub open spec fn spec_weighted_sum(d: Seq<char>, n: int, base: int) -> int
    decreases n,
{
    if n <= 0 {
        0
    } else {
        spec_weighted_sum(d, n - 1, base) + digit_val(d[n - 1]) * (base - (n - 1))
    }
}

/// The check digit for a weighted sum: 0 when the remainder modulo 11 is
/// below 2, 11 minus the remainder otherwise.
pub open spec fn spec_check_digit(sum: int) -> int {
    let r = sum % 11;
    if r < 2 {
        0
    } else {
        11 - r
    }
}

/// A string holds a valid CPF when its digit characters number exactly
/// eleven, are not all equal, and both check digits match: the tenth digit
/// checks the first nine under weights 10 down to 2, the eleventh checks
/// the first ten under weights 11 down to 2.
pub open spec fn spec_is_valid_cpf(s: Seq<char>) -> bool {
    let d = spec_digits_of(s);
    &&& d.len() == 11
    &&& !(forall|i: int| 0 <= i < 11 ==> #[trigger] d[i] == d[0])
    &&& digit_val(d[9]) == spec_check_digit(spec_weighted_sum(d, 9, 10))
    &&& digit_val(d[10]) == spec_check_digit(spec_weighted_sum(d, 10, 11))
}

/// Decides whether `cpf` holds a valid taxpayer id: non-digit characters
/// are discarded first, so a formatted id such as `"529.982.247-25"` is
/// accepted like its bare digits.
pub fn is_valid_cpf(cpf: &str) -> (r: bool)
    ensures
        r == spec_is_valid_cpf(cpf@),
{
    let cleaned = extract_digits(cpf);
    let ghost d = spec_digits_of(cpf@);
    proof {
        lemma_digits_of_are_digits(cpf@);
    }
    if cleaned.len() != 11 {
        return false;
    }

    let first = cleaned[0];
    let mut all_same = true;
    let mut i: usize = 1;
    while i < 11
        invariant
            1 <= i <= 11,
            cleaned@ == d,
            d.len() == 11,
            first == d[0],
            all_same == (forall|j: int| 0 <= j < i ==> #[trigger] d[j] == d[0]),
        decreases 11 - i,
    {
        let same = cleaned[i] == first;
        let new_all = all_same && same;
        proof {
            if new_all {
                assert forall|j: int| 0 <= j < i + 1 implies #[trigger] d[j] == d[0] by {
                    if j == i {
                        assert(d[j] == d[0]);
                    }
                }
            } else {
                assert(!(forall|j: int| 0 <= j < i + 1 ==> #[trigger] d[j] == d[0])) by {
                    if forall|j: int| 0 <= j < i + 1 ==> #[trigger] d[j] == d[0] {
                        assert(d[i as int] == d[0]);
                        assert(forall|j: int| 0 <= j < i ==> #[trigger] d[j] == d[0]);
                        assert(false);
                    }
                }
            }
        }
        all_same = new_all;
        i = i + 1;
    }
    if all_same {
        return false;
    }

    let mut sum: u64 = 0;
    let mut i: usize = 0;
    while i < 9
        invariant
            i <= 9,
            cleaned@ == d,
            d.len() == 11,
            forall|j: int| 0 <= j < d.len() ==> is_digit_char(#[trigger] d[j]),
            sum == spec_weighted_sum(d, i as int, 10),
            sum <= 90 * i,
        decreases 9 - i,
    {
        let dv = char_to_digit(cleaned[i]);
        let w = (10 - i) as u64;
        proof {
            assert(dv * w <= 90) by (nonlinear_arith)
                requires
                    dv <= 9,
                    w <= 10,
            ;
        }
        sum = sum + dv * w;
        i = i + 1;
    }
    let rem = sum % 11;
    let expected1: u64 = if rem < 2 {
        0
    } else {
        11 - rem
    };
    let dv9 = char_to_digit(cleaned[9]);
    if dv9 != expected1 {
        return false;
    }

    let mut sum: u64 = 0;
    let mut i: usize = 0;
    while i < 10
        invariant
            i <= 10,
            cleaned@ == d,
            d.len() == 11,
            forall|j: int| 0 <= j < d.len() ==> is_digit_char(#[trigger] d[j]),
            sum == spec_weighted_sum(d, i as int, 11),
            sum <= 99 * i,
        decreases 10 - i,
    {
        let dv = char_to_digit(cleaned[i]);
        let w = (11 - i) as u64;
        proof {
            assert(dv * w <= 99) by (nonlinear_arith)
                requires
                    dv <= 9,
                    w <= 11,
            ;
        }
        sum = sum + dv * w;
        i = i + 1;
    }
    let rem = sum % 11;
    let expected2: u64 = if rem < 2 {
        0
    } else {
        11 - rem
    };
    let dv10 = char_to_digit(cleaned[10]);
    dv10 == expected2
}

} // verus!
