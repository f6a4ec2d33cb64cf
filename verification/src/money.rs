//! Monetary values in the Brazilian locale.
//!
//! A monetary amount is an exact count of cents; the display string is
//! derived from it by the Brazilian decimal formatter. Parsing discards
//! every character but the ASCII digits and reads what remains as a cent
//! count, so `"R$ 1.234,56"`, `"1234,56"` and `"123456"` all denote the
//! same amount and the last two digits are always taken as cents.

use vstd::prelude::*;
use crate::digits::{
    is_digit_char, digit_val, digits_to_val, spec_digits_of, dec_digits, char_to_digit,
    extract_digits, lemma_digit_char_val, lemma_digits_of_all_digits, lemma_digits_of_are_digits,
    lemma_digits_of_concat, lemma_digits_to_val_nonneg, lemma_digits_to_val_of_dec_digits,
    lemma_dec_digits_are_digits,
};
use crate::formatting::{
    spec_format_decimal, spec_with_dots, spec_pad2, format_magnitude, lemma_digits_of_with_dots,
};

verus! {

/// A monetary amount: the cent count is the source of truth, and the
/// display string is its Brazilian rendering. The fractional display value
/// equals the cent count divided by one hundred.
#[derive(Debug, Clone)]
pub struct MoneyValue {
    /// The amount as a count of cents.
    pub cents: u64,
    /// The amount rendered in the Brazilian decimal format.
    pub formatted_value: String,
}

/// The cent count denoted by a string: the value of its digit characters,
/// or 0 when there is no digit or the value does not fit in a `u64`.
pub open spec fn spec_parse_cents(s: Seq<char>) -> int {
    let d = spec_digits_of(s);
    if d.len() == 0 {
        0
    } else if digits_to_val(d) > u64::MAX {
        0
    } else {
        digits_to_val(d)
    }
}

/// Reads a monetary amount from free text: every character but the ASCII
/// digits is discarded, and the remaining digit string is the cent count
/// (empty, or too large for a `u64`, reads as 0).
pub fn parse_brazilian_money(input: &str) -> (m: MoneyValue)
    ensures
        m.cents == spec_parse_cents(input@),
        m.formatted_value@ == spec_format_decimal(m.cents as int),
{
    let cleaned = extract_digits(input);
    let ghost d = spec_digits_of(input@);
    proof {
        lemma_digits_of_are_digits(input@);
    }
    let mut acc: u64 = 0;
    let mut overflow = false;
    let mut i: usize = 0;
    while i < cleaned.len()
        invariant
            i <= cleaned.len(),
            cleaned@ == d,
            forall|j: int| 0 <= j < d.len() ==> is_digit_char(#[trigger] d[j]),
            !overflow ==> acc == digits_to_val(d.take(i as int)),
            overflow ==> digits_to_val(d.take(i as int)) > u64::MAX,
        decreases cleaned.len() - i,
    {
        let c = cleaned[i];
        let dv = char_to_digit(c);
        proof {
            assert(d.take(i + 1).drop_last() =~= d.take(i as int));
            assert(d.take(i + 1).last() == d[i as int]);
            assert(digits_to_val(d.take(i + 1)) == digits_to_val(d.take(i as int)) * 10
                + digit_val(d[i as int]));
            assert(forall|j: int|
                0 <= j < d.take(i as int).len() ==> is_digit_char(#[trigger] d.take(i as int)[j]));
            lemma_digits_to_val_nonneg(d.take(i as int));
        }
        if overflow {
            proof {
                assert(digits_to_val(d.take(i as int)) * 10 >= digits_to_val(d.take(i as int)))
                    by (nonlinear_arith)
                    requires
                        digits_to_val(d.take(i as int)) >= 0,
                ;
            }
        } else {
            match acc.checked_mul(10) {
                Some(t) => {
                    match t.checked_add(dv) {
                        Some(t2) => {
                            acc = t2;
                        },
                        None => {
                            overflow = true;
                        },
                    }
                },
                None => {
                    overflow = true;
                },
            }
        }
        i = i + 1;
    }
    proof {
        assert(d.take(cleaned@.len() as int) =~= d);
    }
    let cents: u64 = if cleaned.len() == 0 {
        0
    } else if overflow {
        0
    } else {
        acc
    };
    let formatted = format_magnitude(false, cents);
    MoneyValue { cents, formatted_value: formatted }
}

/// The sum of the cent counts denoted by a sequence of strings.
pub open spec fn spec_total_cents(vs: Seq<Seq<char>>) -> int
    decreases vs.len(),
{
    if vs.len() == 0 {
        0
    } else {
        spec_total_cents(vs.drop_last()) + spec_parse_cents(vs.last())
    }
}

/// Each string denotes a non-negative cent count of at most `u64::MAX`.
pub proof fn lemma_parse_cents_bounds(s: Seq<char>)
    ensures
        0 <= spec_parse_cents(s) <= u64::MAX,
{
    lemma_digits_of_are_digits(s);
    lemma_digits_to_val_nonneg(spec_digits_of(s));
}

/// A total of cent counts is non-negative.
pub proof fn lemma_total_cents_nonneg(vs: Seq<Seq<char>>)
    ensures
        spec_total_cents(vs) >= 0,
    decreases vs.len(),
{
    if vs.len() > 0 {
        lemma_total_cents_nonneg(vs.drop_last());
        lemma_parse_cents_bounds(vs.last());
    }
}

/// Sums the amounts denoted by `values` as exact integer cents; a sum
/// beyond `u64::MAX` cents saturates there. The display string renders the
/// summed cent count.
pub fn calculate_total_money(values: &Vec<String>) -> (m: MoneyValue)
    ensures
        m.cents == if spec_total_cents(values.deep_view()) > u64::MAX {
            u64::MAX as int
        } else {
            spec_total_cents(values.deep_view())
        },
        m.formatted_value@ == spec_format_decimal(m.cents as int),
{
    let ghost dv = values.deep_view();
    let mut acc: u64 = 0;
    let mut i: usize = 0;
    while i < values.len()
        invariant
            i <= values.len(),
            dv == values.deep_view(),
            dv.len() == values.len(),
            forall|j: int| 0 <= j < values.len() ==> dv[j] == values@[j]@,
            acc == if spec_total_cents(dv.take(i as int)) > u64::MAX {
                u64::MAX as int
            } else {
                spec_total_cents(dv.take(i as int))
            },
        decreases values.len() - i,
    {
        let parsed = parse_brazilian_money(values[i].as_str());
        proof {
            assert(dv.take(i + 1).drop_last() =~= dv.take(i as int));
            assert(dv.take(i + 1).last() == dv[i as int]);
            lemma_parse_cents_bounds(dv[i as int]);
            lemma_total_cents_nonneg(dv.take(i as int));
        }
        acc = acc.saturating_add(parsed.cents);
        i = i + 1;
    }
    proof {
        assert(dv.take(values@.len() as int) =~= dv);
    }
    let formatted = format_magnitude(false, acc);
    MoneyValue { cents: acc, formatted_value: formatted }
}

/// Formatting a cent count and reading the result back yields the same
/// count: the parser discards the thousands separators and the decimal
/// comma that the formatter inserts, and the two digits after the comma
/// are exactly the last two digits of the count.
pub proof fn lemma_parse_format_round_trip(c: int)
    requires
        0 <= c <= u64::MAX,
    ensures
        spec_parse_cents(spec_format_decimal(c)) == c,
{
    let q = c / 100;
    let f = c % 100;
    let dq = dec_digits(q as nat);
    let pad = spec_pad2(f);
    let s = spec_format_decimal(c);
    assert(s == spec_with_dots(dq) + seq![','] + pad);

    lemma_dec_digits_are_digits(q as nat);
    lemma_digit_char_val(f / 10);
    lemma_digit_char_val(f % 10);

    lemma_digits_of_concat(spec_with_dots(dq) + seq![','], pad);
    lemma_digits_of_concat(spec_with_dots(dq), seq![',']);
    lemma_digits_of_with_dots(dq);
    assert(seq![','].drop_last() =~= Seq::<char>::empty());
    assert(!is_digit_char(','));
    assert(spec_digits_of(Seq::<char>::empty()) == Seq::<char>::empty());
    assert(spec_digits_of(seq![',']) =~= Seq::<char>::empty());
    lemma_digits_of_all_digits(pad);
    assert(spec_digits_of(s) =~= dq + pad);

    let whole = dq + pad;
    assert(whole.drop_last() =~= dq.push(pad[0]));
    assert(dq.push(pad[0]).drop_last() =~= dq);
    lemma_digits_to_val_of_dec_digits(q as nat);
    assert(digits_to_val(whole) == digits_to_val(whole.drop_last()) * 10 + digit_val(whole.last()));
    assert(digits_to_val(whole.drop_last()) == digits_to_val(dq) * 10 + digit_val(pad[0]));
    assert(digits_to_val(whole) == (q * 10 + f / 10) * 10 + f % 10);
    assert((q * 10 + f / 10) * 10 == q * 100 + (f / 10) * 10) by (nonlinear_arith);
    assert(f / 10 * 10 + f % 10 == f);
    assert(q * 100 + f == c) by (nonlinear_arith)
        requires
            q == c / 100,
            f == c % 100,
            c >= 0,
    ;
    assert(whole.len() > 0);
}

} // verus!
