//! Decimal digits as characters: spec-level definitions of digit sequences,
//! their numeric value, and the digit characters contained in a string, with
//! the executable extraction function shared by the money parser and the
//! taxpayer-id validator.

use vstd::prelude::*;

verus! {

broadcast use vstd::string::axiom_spec_iter;

/// The character is one of the ten ASCII decimal digits.
pub open spec fn is_digit_char(c: char) -> bool {
    48 <= c as int <= 57
}

/// The digit character for a value between 0 and 9.
pub open spec fn digit_char(d: int) -> char {
    (48 + d) as char
}

/// The numeric value of a digit character.
pub open spec fn digit_val(c: char) -> int {
    c as int - 48
}

/// The decimal digit characters of `n`, most significant first, with no
/// leading zero except for `n == 0` itself.
pub open spec fn dec_digits(n: nat) -> Seq<char>
    decreases n,
{
    if n < 10 {
        seq![digit_char(n as int)]
    } else {
        dec_digits(n / 10).push(digit_char((n % 10) as int))
    }
}

/// The number denoted by a sequence of digit characters (most significant
/// first); the empty sequence denotes 0.
pub open spec fn digits_to_val(s: Seq<char>) -> int
    decreases s.len(),
{
    if s.len() == 0 {
        0
    } else {
        digits_to_val(s.drop_last()) * 10 + digit_val(s.last())
    }
}

/// The subsequence of ASCII digit characters of `s`, in order.
pub open spec fn spec_digits_of(s: Seq<char>) -> Seq<char>
    decreases s.len(),
{
    if s.len() == 0 {
        Seq::empty()
    } else if is_digit_char(s.last()) {
        spec_digits_of(s.drop_last()).push(s.last())
    } else {
        spec_digits_of(s.drop_last())
    }
}

/// Every character of `dec_digits(n)` is a digit, and there is at least one.
pub proof fn lemma_dec_digits_are_digits(n: nat)
    ensures
        dec_digits(n).len() >= 1,
        forall|i: int|
            0 <= i < dec_digits(n).len() ==> is_digit_char(#[trigger] dec_digits(n)[i]),
    decreases n,
{
    if n >= 10 {
        lemma_dec_digits_are_digits(n / 10);
    }
}

/// Reading back the digits of `n` yields `n`.
pub proof fn lemma_digits_to_val_of_dec_digits(n: nat)
    ensures
        digits_to_val(dec_digits(n)) == n,
    decreases n,
{
    if n < 10 {
        let s = dec_digits(n);
        assert(digit_char(n as int) as int == 48 + n);
        assert(s.drop_last() =~= Seq::<char>::empty());
        assert(digits_to_val(s) == digits_to_val(Seq::<char>::empty()) * 10 + digit_val(s.last()));
    } else {
        lemma_digits_to_val_of_dec_digits(n / 10);
        let s = dec_digits(n);
        assert(digit_char((n % 10) as int) as int == 48 + n % 10);
        assert(s.drop_last() =~= dec_digits(n / 10));
        assert(digits_to_val(s) == digits_to_val(dec_digits(n / 10)) * 10 + digit_val(s.last()));
        assert(n / 10 * 10 + n % 10 == n) by (nonlinear_arith);
    }
}

/// Digit extraction distributes over concatenation.
pub proof fn lemma_digits_of_concat(a: Seq<char>, b: Seq<char>)
    ensures
        spec_digits_of(a + b) == spec_digits_of(a) + spec_digits_of(b),
    decreases b.len(),
{
    if b.len() == 0 {
        assert(a + b =~= a);
        assert(spec_digits_of(a) + spec_digits_of(b) =~= spec_digits_of(a));
    } else {
        lemma_digits_of_concat(a, b.drop_last());
        assert((a + b).drop_last() =~= a + b.drop_last());
        assert((a + b).last() == b.last());
        if is_digit_char(b.last()) {
            assert(spec_digits_of(a) + spec_digits_of(b) =~= (spec_digits_of(a)
                + spec_digits_of(b.drop_last())).push(b.last()));
        }
    }
}

/// A sequence made of digit characters only is its own digit subsequence.
pub proof fn lemma_digits_of_all_digits(s: Seq<char>)
    requires
        forall|i: int| 0 <= i < s.len() ==> is_digit_char(#[trigger] s[i]),
    ensures
        spec_digits_of(s) == s,
    decreases s.len(),
{
    if s.len() > 0 {
        lemma_digits_of_all_digits(s.drop_last());
        assert(spec_digits_of(s.drop_last()).push(s.last()) =~= s);
    }
}

/// Every character of the digit subsequence is a digit.
pub proof fn lemma_digits_of_are_digits(s: Seq<char>)
    ensures
        forall|i: int|
            0 <= i < spec_digits_of(s).len() ==> is_digit_char(#[trigger] spec_digits_of(s)[i]),
    decreases s.len(),
{
    if s.len() > 0 {
        lemma_digits_of_are_digits(s.drop_last());
        let d = spec_digits_of(s);
        let prev = spec_digits_of(s.drop_last());
        assert forall|i: int| 0 <= i < d.len() implies is_digit_char(d[i]) by {
            if is_digit_char(s.last()) {
                assert(d == prev.push(s.last()));
                if i < d.len() - 1 {
                    assert(d[i] == prev[i]);
                } else {
                    assert(d[i] == s.last());
                }
            } else {
                assert(d == prev);
                assert(d[i] == prev[i]);
            }
        }
    }
}

/// The digit character of a value below ten is a digit character and reads
/// back as that value.
pub proof fn lemma_digit_char_val(x: int)
    requires
        0 <= x <= 9,
    ensures
        is_digit_char(digit_char(x)),
        digit_val(digit_char(x)) == x,
{
    assert(digit_char(x) as int == 48 + x);
}

/// A sequence of digit characters denotes a non-negative number.
pub proof fn lemma_digits_to_val_nonneg(s: Seq<char>)
    requires
        forall|i: int| 0 <= i < s.len() ==> is_digit_char(#[trigger] s[i]),
    ensures
        digits_to_val(s) >= 0,
    decreases s.len(),
{
    if s.len() > 0 {
        assert(forall|i: int|
            0 <= i < s.drop_last().len() ==> is_digit_char(#[trigger] s.drop_last()[i]));
        lemma_digits_to_val_nonneg(s.drop_last());
        assert(is_digit_char(s.last()));
    }
}

/// The numeric value of a digit character.
pub fn char_to_digit(c: char) -> (d: u64)
    requires
        is_digit_char(c),
    ensures
        d == digit_val(c),
        d < 10,
{
    if c == '0' {
        0
    } else if c == '1' {
        1
    } else if c == '2' {
        2
    } else if c == '3' {
        3
    } else if c == '4' {
        4
    } else if c == '5' {
        5
    } else if c == '6' {
        6
    } else if c == '7' {
        7
    } else if c == '8' {
        8
    } else {
        9
    }
}

/// The characters of `input`, in order, as a vector.
pub fn chars_of(input: &str) -> (v: Vec<char>)
    ensures
        v@ == input@,
{
    let mut v: Vec<char> = Vec::new();
    for c in it: input.chars()
        invariant
            v.len() == it.index(),
            forall|j: int| 0 <= j < v.len() ==> v@[j] == it.seq()[j],
    {
        v.push(c);
    }
    proof {
        assert(v@ =~= input@);
    }
    v
}

/// The ASCII digit characters of `input`, in order.
pub fn extract_digits(input: &str) -> (v: Vec<char>)
    ensures
        v@ == spec_digits_of(input@),
{
    let chars = chars_of(input);
    let mut v: Vec<char> = Vec::new();
    let mut i: usize = 0;
    while i < chars.len()
        invariant
            i <= chars.len(),
            chars@ == input@,
            v@ == spec_digits_of(input@.take(i as int)),
        decreases chars.len() - i,
    {
        let c = chars[i];
        proof {
            assert(c == input@[i as int]);
            assert(input@.take(i + 1).drop_last() =~= input@.take(i as int));
            assert(input@.take(i + 1).last() == input@[i as int]);
        }
        if '0' <= c && c <= '9' {
            v.push(c);
        }
        i = i + 1;
    }
    proof {
        assert(input@.take(input@.len() as int) =~= input@);
    }
    v
}

} // verus!
