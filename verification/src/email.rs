//! A syntactic sanity check for email addresses.
//!
//! The accepted shape is: one or more characters that are neither
//! whitespace nor `@`, one `@`, one or more such characters, a `.`, and one
//! or more such characters. Equivalently — and this is how the
//! specification below states it — the string holds no whitespace, exactly
//! one `@` and not at its start, and some `.` stands at least two
//! positions after the `@` and before the last position. This is a shape
//! check only, not an address validator.

use vstd::prelude::*;
use crate::digits::chars_of;

verus! {

/// The character is Unicode whitespace.
pub open spec fn spec_is_space(c: char) -> bool {
    let u = c as int;
    ||| 9 <= u <= 13
    ||| u == 32
    ||| u == 0x85
    ||| u == 0xA0
    ||| u == 0x1680
    ||| 0x2000 <= u <= 0x200A
    ||| u == 0x2028
    ||| u == 0x2029
    ||| u == 0x202F
    ||| u == 0x205F
    ||| u == 0x3000
}

/// Position `i` carries the string's only `@`, not at the start, and some
/// `.` lies between one position after the `@` and one before the end.
pub open spec fn email_shape_at(s: Seq<char>, i: int) -> bool {
    &&& 1 <= i < s.len()
    &&& s[i] == '@'
    &&& forall|j: int| 0 <= j < s.len() && j != i ==> s[j] != '@'
    &&& exists|k: int| i + 2 <= k <= s.len() - 2 && s[k] == '.'
}

/// The string holds no whitespace and has the accepted shape around its
/// one `@`.
pub open spec fn spec_is_valid_email(s: Seq<char>) -> bool {
    &&& forall|i: int| 0 <= i < s.len() ==> !spec_is_space(#[trigger] s[i])
    &&& exists|i: int| email_shape_at(s, i)
}

/// The character is Unicode whitespace.
fn is_space(c: char) -> (b: bool)
    ensures
        b == spec_is_space(c),
{
    ('\u{9}' <= c && c <= '\u{D}') || c == ' ' || c == '\u{85}' || c == '\u{A0}' || c == '\u{1680}'
        || ('\u{2000}' <= c && c <= '\u{200A}') || c == '\u{2028}' || c == '\u{2029}' || c
        == '\u{202F}' || c == '\u{205F}' || c == '\u{3000}'
}

/// Decides whether `email` has the accepted shape: no whitespace, exactly
/// one `@` with at least one character before it, and a `.` after the `@`
/// with at least one character on each side.
pub fn is_valid_email(email: &str) -> (r: bool)
    ensures
        r == spec_is_valid_email(email@),
{
    let chars = chars_of(email);
    let ghost s = email@;
    let n = chars.len();

    let mut has_space = false;
    let mut at_seen = false;
    let mut at_twice = false;
    let mut at_pos: usize = 0;
    let ghost mut second_at: int = 0;
    let mut i: usize = 0;
    while i < n
        invariant
            i <= n,
            chars@ == s,
            n == s.len(),
            has_space == (exists|j: int| 0 <= j < i && spec_is_space(#[trigger] s[j])),
            !at_seen ==> (forall|j: int| 0 <= j < i ==> s[j] != '@'),
            at_seen ==> at_pos < i && s[at_pos as int] == '@',
            at_seen && !at_twice ==> (forall|j: int|
                0 <= j < i && j != at_pos ==> s[j] != '@'),
            at_twice ==> at_seen && 0 <= second_at < i && second_at != at_pos && s[second_at]
                == '@',
        decreases n - i,
    {
        let c = chars[i];
        if is_space(c) {
            has_space = true;
        }
        if c == '@' {
            if at_seen {
                if !at_twice {
                    at_twice = true;
                    proof {
                        second_at = i as int;
                    }
                }
            } else {
                at_seen = true;
                at_pos = i;
            }
        }
        i = i + 1;
    }

    if has_space {
        return false;
    }
    if !at_seen {
        proof {
            assert forall|i0: int| !email_shape_at(s, i0) by {
                if 1 <= i0 < s.len() {
                    assert(s[i0] != '@');
                }
            }
        }
        return false;
    }
    if at_twice {
        proof {
            assert forall|i0: int| !email_shape_at(s, i0) by {
                if email_shape_at(s, i0) {
                    if i0 != at_pos {
                        assert(s[at_pos as int] != '@');
                    } else {
                        assert(s[second_at] != '@');
                    }
                }
            }
        }
        return false;
    }
    if at_pos == 0 {
        proof {
            assert forall|i0: int| !email_shape_at(s, i0) by {
                if email_shape_at(s, i0) {
                    assert(s[i0] == '@');
                    assert(i0 != 0);
                    assert(s[i0] != '@');
                }
            }
        }
        return false;
    }

    if n < 4 || at_pos > n - 4 {
        proof {
            assert forall|i0: int| !email_shape_at(s, i0) by {
                if email_shape_at(s, i0) {
                    if i0 != at_pos {
                        assert(s[i0] != '@');
                        assert(false);
                    } else {
                        let e1 = choose|e1: int| i0 + 2 <= e1 <= s.len() - 2 && s[e1] == '.';
                        assert(false);
                    }
                }
            }
        }
        return false;
    }

    let mut found = false;
    let mut k: usize = at_pos + 2;
    while k + 1 < n
        invariant
            chars@ == s,
            n == s.len(),
            at_pos + 2 <= k <= n - 1,
            found == (exists|e: int| at_pos + 2 <= e < k && s[e] == '.'),
        decreases n - k,
    {
        if chars[k] == '.' {
            found = true;
        }
        k = k + 1;
    }

    proof {
        if found {
            let e = choose|e: int| at_pos + 2 <= e < k && s[e] == '.';
            assert(e <= s.len() - 2);
            assert(email_shape_at(s, at_pos as int));
        } else {
            assert(k + 1 >= n);
            assert forall|i0: int| !email_shape_at(s, i0) by {
                if email_shape_at(s, i0) {
                    if i0 != at_pos {
                        assert(s[i0] != '@');
                        assert(false);
                    } else {
                        let e1 = choose|e1: int| i0 + 2 <= e1 <= s.len() - 2 && s[e1] == '.';
                        assert(at_pos + 2 <= e1 < k);
                        assert(s[e1] == '.');
                        assert(found);
                        assert(false);
                    }
                }
            }
        }
    }
    found
}

} // verus!
