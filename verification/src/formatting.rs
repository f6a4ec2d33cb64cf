//! Brazilian-locale decimal formatting over fixed-point values: the integer
//! part is grouped in blocks of three digits separated by `.`, the two
//! fractional digits follow a `,`, and a negative value carries a leading
//! `-` outside the grouped digits.
//!
//! A value is an integer count of hundredths, so the two fractional digits
//! are exact and a fractional carry into the integer part cannot arise.

use vstd::prelude::*;
use crate::digits::{
    is_digit_char, digit_char, dec_digits, lemma_dec_digits_are_digits, spec_digits_of,
    lemma_digits_of_concat,
};

verus! {

/// The suffix of `digits` from position `i` on, with a `.` inserted before
/// every later position whose distance to the end is a positive multiple of
/// three.
pub open spec fn dotted_from(digits: Seq<char>, i: int) -> Seq<char>
    decreases digits.len() - i,
{
    if i < 0 || i >= digits.len() {
        Seq::empty()
    } else {
        let sep: Seq<char> = if i > 0 && (digits.len() - i) % 3 == 0 {
            seq!['.']
        } else {
            Seq::empty()
        };
        sep + seq![digits[i]] + dotted_from(digits, i + 1)
    }
}

/// `digits` with `.` as a thousands separator, grouping in blocks of three
/// from the right.
pub open spec fn spec_with_dots(digits: Seq<char>) -> Seq<char> {
    dotted_from(digits, 0)
}

/// The decimal digits of `n` with thousands separators, and a leading `-`
/// for a negative `n`.
pub open spec fn spec_group_int(n: int) -> Seq<char> {
    if n < 0 {
        seq!['-'] + spec_with_dots(dec_digits((-n) as nat))
    } else {
        spec_with_dots(dec_digits(n as nat))
    }
}

/// A fractional part below 100 as exactly two digit characters.
pub open spec fn spec_pad2(f: int) -> Seq<char> {
    seq![digit_char(f / 10), digit_char(f % 10)]
}

/// The Brazilian rendering of a non-negative count `a` of hundredths:
/// grouped integer part, `,`, two fractional digits.
pub open spec fn spec_decimal_core(a: int) -> Seq<char> {
    spec_with_dots(dec_digits((a / 100) as nat)) + seq![','] + spec_pad2(a % 100)
}

/// The Brazilian rendering of a count `h` of hundredths, negative values
/// with a leading `-` before the rendering of the magnitude.
pub open spec fn spec_format_decimal(h: int) -> Seq<char> {
    if h < 0 {
        seq!['-'] + spec_decimal_core(-h)
    } else {
        spec_decimal_core(h)
    }
}

/// A non-digit character alone contributes no digit.
proof fn lemma_digits_of_singleton(c: char)
    ensures
        is_digit_char(c) ==> spec_digits_of(seq![c]) == seq![c],
        !is_digit_char(c) ==> spec_digits_of(seq![c]) == Seq::<char>::empty(),
{
    let s = seq![c];
    assert(s.drop_last() =~= Seq::<char>::empty());
    assert(spec_digits_of(Seq::<char>::empty()) == Seq::<char>::empty());
    if is_digit_char(c) {
        assert(spec_digits_of(s) =~= seq![c]);
    } else {
        assert(spec_digits_of(s) =~= Seq::<char>::empty());
    }
}

/// Inserting thousands separators neither adds nor removes a digit.
proof fn lemma_digits_of_dotted_from(d: Seq<char>, i: int)
    requires
        0 <= i <= d.len(),
        forall|j: int| 0 <= j < d.len() ==> is_digit_char(#[trigger] d[j]),
    ensures
        spec_digits_of(dotted_from(d, i)) == d.skip(i),
    decreases d.len() - i,
{
    if i >= d.len() {
        assert(dotted_from(d, i) =~= Seq::<char>::empty());
        assert(d.skip(i) =~= Seq::<char>::empty());
        assert(spec_digits_of(Seq::<char>::empty()) =~= Seq::<char>::empty());
    } else {
        lemma_digits_of_dotted_from(d, i + 1);
        let sep: Seq<char> = if i > 0 && (d.len() - i) % 3 == 0 {
            seq!['.']
        } else {
            Seq::empty()
        };
        let rest = dotted_from(d, i + 1);
        assert(dotted_from(d, i) == sep + seq![d[i]] + rest);
        lemma_digits_of_concat(sep + seq![d[i]], rest);
        lemma_digits_of_concat(sep, seq![d[i]]);
        lemma_digits_of_singleton(d[i]);
        lemma_digits_of_singleton('.');
        if sep.len() > 0 {
            assert(sep =~= seq!['.']);
            assert(!is_digit_char('.'));
        } else {
            assert(spec_digits_of(sep) =~= Seq::<char>::empty());
        }
        assert(spec_digits_of(sep) + spec_digits_of(seq![d[i]]) =~= seq![d[i]]);
        assert(seq![d[i]] + d.skip(i + 1) =~= d.skip(i));
    }
}

/// The digit characters of the grouped rendering are exactly the digits.
pub proof fn lemma_digits_of_with_dots(d: Seq<char>)
    requires
        forall|j: int| 0 <= j < d.len() ==> is_digit_char(#[trigger] d[j]),
    ensures
        spec_digits_of(spec_with_dots(d)) == d,
{
    lemma_digits_of_dotted_from(d, 0);
    assert(d.skip(0) =~= d);
}

/// Appends one character of the formatting alphabet to `s`.
fn push_char(s: &mut String, c: char)
    requires
        is_digit_char(c) || c == '.' || c == ',' || c == '-',
    ensures
        final(s)@ == old(s)@.push(c),
{
    let piece: &'static str = if c == '.' {
        "."
    } else if c == ',' {
        ","
    } else if c == '-' {
        "-"
    } else if c == '0' {
        "0"
    } else if c == '1' {
        "1"
    } else if c == '2' {
        "2"
    } else if c == '3' {
        "3"
    } else if c == '4' {
        "4"
    } else if c == '5' {
        "5"
    } else if c == '6' {
        "6"
    } else if c == '7' {
        "7"
    } else if c == '8' {
        "8"
    } else {
        "9"
    };
    proof {
        reveal_strlit(".");
        reveal_strlit(",");
        reveal_strlit("-");
        reveal_strlit("0");
        reveal_strlit("1");
        reveal_strlit("2");
        reveal_strlit("3");
        reveal_strlit("4");
        reveal_strlit("5");
        reveal_strlit("6");
        reveal_strlit("7");
        reveal_strlit("8");
        reveal_strlit("9");
        assert(piece@ =~= seq![c]);
    }
    s.append(piece);
    proof {
        assert(old(s)@ + piece@ =~= old(s)@.push(c));
    }
}

/// The digit character for a value below ten.
fn digit_to_char(d: u64) -> (c: char)
    requires
        d < 10,
    ensures
        c == digit_char(d as int),
        is_digit_char(c),
{
    if d == 0 {
        '0'
    } else if d == 1 {
        '1'
    } else if d == 2 {
        '2'
    } else if d == 3 {
        '3'
    } else if d == 4 {
        '4'
    } else if d == 5 {
        '5'
    } else if d == 6 {
        '6'
    } else if d == 7 {
        '7'
    } else if d == 8 {
        '8'
    } else {
        '9'
    }
}

/// The decimal digit characters of `n`, most significant first.
fn digits_of_u64(n: u64) -> (v: Vec<char>)
    ensures
        v@ == dec_digits(n as nat),
{
    let mut rev: Vec<char> = Vec::new();
    let mut m: u64 = n;
    proof {
        assert(dec_digits(n as nat) =~= dec_digits(m as nat) + rev@.reverse());
    }
    while m >= 10
        invariant
            dec_digits(n as nat) == dec_digits(m as nat) + rev@.reverse(),
        decreases m,
    {
        let c = digit_to_char(m % 10);
        let ghost rev_old = rev@;
        rev.push(c);
        m = m / 10;
        proof {
            assert(rev_old.push(c).reverse() =~= seq![c] + rev_old.reverse());
            assert(dec_digits(m as nat).push(c) + rev_old.reverse() =~= dec_digits(m as nat) + (
            seq![c] + rev_old.reverse()));
        }
    }
    let c = digit_to_char(m);
    let ghost rev_old = rev@;
    rev.push(c);
    proof {
        assert(dec_digits(m as nat) =~= seq![c]);
        assert(rev_old.push(c).reverse() =~= seq![c] + rev_old.reverse());
        assert(rev@.reverse() =~= dec_digits(n as nat));
    }
    let mut v: Vec<char> = Vec::new();
    let mut i: usize = rev.len();
    while i > 0
        invariant
            i <= rev.len(),
            v.len() == rev.len() - i,
            forall|j: int| 0 <= j < v.len() ==> v@[j] == rev@[rev.len() - 1 - j],
        decreases i,
    {
        i = i - 1;
        v.push(rev[i]);
    }
    proof {
        assert(v@ =~= rev@.reverse());
    }
    v
}

/// Appends `digits` to `s` with `.` inserted as a thousands separator.
fn append_dotted(s: &mut String, digits: &Vec<char>)
    requires
        forall|j: int| 0 <= j < digits.len() ==> is_digit_char(#[trigger] digits@[j]),
    ensures
        final(s)@ == old(s)@ + spec_with_dots(digits@),
{
    let ghost s0 = s@;
    let mut i: usize = 0;
    while i < digits.len()
        invariant
            i <= digits.len(),
            forall|j: int| 0 <= j < digits.len() ==> is_digit_char(#[trigger] digits@[j]),
            s@ + dotted_from(digits@, i as int) == s0 + dotted_from(digits@, 0),
        decreases digits.len() - i,
    {
        let ghost s_pre = s@;
        if i > 0 && (digits.len() - i) % 3 == 0 {
            push_char(s, '.');
        }
        push_char(s, digits[i]);
        proof {
            let d = digits@;
            let sep: Seq<char> = if i > 0 && (d.len() - i) % 3 == 0 {
                seq!['.']
            } else {
                Seq::empty()
            };
            assert(s@ =~= s_pre + sep + seq![d[i as int]]);
            assert(dotted_from(d, i as int) == sep + seq![d[i as int]] + dotted_from(
                d,
                i as int + 1,
            ));
            assert(s@ + dotted_from(d, i as int + 1) =~= s_pre + dotted_from(d, i as int));
        }
        i = i + 1;
    }
    proof {
        assert(dotted_from(digits@, digits@.len() as int) =~= Seq::<char>::empty());
        assert(s@ =~= s@ + dotted_from(digits@, digits@.len() as int));
        assert(s0 =~= s0 + Seq::<char>::empty());
        assert(s@ =~= s0 + dotted_from(digits@, 0));
    }
}

/// The magnitude of `v` as an unsigned value.
fn abs_u64(v: i64) -> (a: u64)
    ensures
        a == if v < 0 {
            -(v as int)
        } else {
            v as int
        },
{
    if v == i64::MIN {
        9223372036854775808u64
    } else if v < 0 {
        (-v) as u64
    } else {
        v as u64
    }
}

/// Renders `number` in decimal with `.` as a thousands separator, grouping
/// digits in blocks of three from the right; a negative number carries a
/// leading `-` outside the grouped digits.
pub fn format_number_with_dots(number: i64) -> (r: String)
    ensures
        r@ == spec_group_int(number as int),
{
    let mut s = String::new();
    if number < 0 {
        push_char(&mut s, '-');
    }
    let a = abs_u64(number);
    let d = digits_of_u64(a);
    proof {
        lemma_dec_digits_are_digits(a as nat);
    }
    append_dotted(&mut s, &d);
    proof {
        if number < 0 {
            assert(Seq::<char>::empty().push('-') =~= seq!['-']);
            assert(seq!['-'] + spec_with_dots(dec_digits(a as nat)) =~= s@);
        } else {
            assert(Seq::<char>::empty() + spec_with_dots(dec_digits(a as nat)) =~= s@);
        }
    }
    s
}

/// Renders a non-negative count `a` of hundredths, with a leading `-` when
/// `neg` is set: grouped integer part, `,`, two fractional digits.
pub(crate) fn format_magnitude(neg: bool, a: u64) -> (r: String)
    ensures
        r@ == if neg {
            seq!['-'] + spec_decimal_core(a as int)
        } else {
            spec_decimal_core(a as int)
        },
{
    let mut s = String::new();
    if neg {
        push_char(&mut s, '-');
    }
    let q = a / 100;
    let f = a % 100;
    let d = digits_of_u64(q);
    proof {
        lemma_dec_digits_are_digits(q as nat);
    }
    append_dotted(&mut s, &d);
    push_char(&mut s, ',');
    push_char(&mut s, digit_to_char(f / 10));
    push_char(&mut s, digit_to_char(f % 10));
    proof {
        let core = spec_decimal_core(a as int);
        assert(f / 10 == (a as int % 100) / 10 && f % 10 == (a as int % 100) % 10);
        if neg {
            assert(s@ =~= seq!['-'] + core);
        } else {
            assert(s@ =~= core);
        }
    }
    s
}

/// Renders a count `value` of hundredths in the Brazilian decimal format,
/// for example `1.234,50` for 123450 hundredths.
pub fn format_brazilian_decimal(value: i64) -> (r: String)
    ensures
        r@ == spec_format_decimal(value as int),
{
    let neg = value < 0;
    let a = abs_u64(value);
    format_magnitude(neg, a)
}

/// Renders a monetary amount given as a count of cents; the same rendering
/// as `format_brazilian_decimal`.
pub fn format_brazilian_money(value: i64) -> (r: String)
    ensures
        r@ == spec_format_decimal(value as int),
{
    format_brazilian_decimal(value)
}

} // verus!
