//! Positions given as text: unsigned decimal numbers, counted from 1.

use vstd::prelude::*;
use crate::decimal::decimal_text;
use crate::error::TodoError;

verus! {

/// The value of a decimal digit, if `c` is one.
pub open spec fn digit_value(c: char) -> Option<nat> {
    if c == '0' {
        Some(0)
    } else if c == '1' {
        Some(1)
    } else if c == '2' {
        Some(2)
    } else if c == '3' {
        Some(3)
    } else if c == '4' {
        Some(4)
    } else if c == '5' {
        Some(5)
    } else if c == '6' {
        Some(6)
    } else if c == '7' {
        Some(7)
    } else if c == '8' {
        Some(8)
    } else if c == '9' {
        Some(9)
    } else {
        None
    }
}

/// The number that a non-empty run of decimal digits stands for; `None` for
/// an empty text and for one that holds anything but digits.
pub open spec fn digits_value(s: Seq<char>) -> Option<nat>
    decreases s.len(),
{
    if s.len() == 0 {
        None
    } else {
        match digit_value(s.last()) {
            None => None,
            Some(d) => if s.len() == 1 {
                Some(d)
            } else {
                match digits_value(s.drop_last()) {
                    None => None,
                    Some(v) => Some(v * 10 + d),
                }
            },
        }
    }
}

/// The number that `s` stands for as an unsigned decimal: digits, with at
/// most one `+` before them.
pub open spec fn unsigned_value(s: Seq<char>) -> Option<nat> {
    if s.len() > 0 && s[0] == '+' {
        digits_value(s.skip(1))
    } else {
        digits_value(s)
    }
}

/// The `usize` that `s` stands for, if it stands for a number and that number
/// fits.
pub open spec fn parsed_usize(s: Seq<char>) -> Option<usize> {
    match unsigned_value(s) {
        Some(v) => if v <= usize::MAX {
            Some(v as usize)
        } else {
            None
        },
        None => None,
    }
}

/// A text with anything but a digit in it stands for no number.
proof fn lemma_not_digits(s: Seq<char>, k: int)
    requires
        0 <= k < s.len(),
        digit_value(s[k]) is None,
    ensures
        digits_value(s) is None,
    decreases s.len(),
{
    if k < s.len() - 1 {
        lemma_not_digits(s.drop_last(), k);
    }
}

/// The front part of a run of digits stands for a number too, and for none
/// that is greater than that of the whole run.
proof fn lemma_prefix_bound(s: Seq<char>, k: int)
    requires
        1 <= k <= s.len(),
        digits_value(s) is Some,
    ensures
        digits_value(s.take(k)) is Some,
        digits_value(s.take(k))->0 <= digits_value(s)->0,
    decreases s.len(),
{
    if k == s.len() {
        assert(s.take(k) =~= s);
    } else {
        lemma_prefix_bound(s.drop_last(), k);
        assert(s.drop_last().take(k) =~= s.take(k));
    }
}

/// Decimal notation is a run of digits that stands for the number written.
proof fn lemma_decimal_text_value(n: nat)
    ensures
        digits_value(decimal_text(n)) == Some(n),
    decreases n,
{
    if n >= 10 {
        lemma_decimal_text_value(n / 10);
        assert(decimal_text(n).drop_last() =~= decimal_text(n / 10));
    }
}

/// A number written in decimal notation reads back as itself: the position
/// that a listing shows for a task is the one to type in order to name it.
pub proof fn lemma_decimal_text_reads_back(n: nat)
    ensures
        unsigned_value(decimal_text(n)) == Some(n),
        n <= usize::MAX ==> parsed_usize(decimal_text(n)) == Some(n as usize),
{
    lemma_decimal_text_value(n);
    if decimal_text(n)[0] == '+' {
        lemma_not_digits(decimal_text(n), 0);
    }
}

fn digit_of(c: char) -> (d: Option<usize>)
    ensures
        match d {
            Some(v) => v < 10 && digit_value(c) == Some(v as nat),
            None => digit_value(c) is None,
        },
{
    match c {
        '0' => Some(0),
        '1' => Some(1),
        '2' => Some(2),
        '3' => Some(3),
        '4' => Some(4),
        '5' => Some(5),
        '6' => Some(6),
        '7' => Some(7),
        '8' => Some(8),
        '9' => Some(9),
        _ => None,
    }
}

/// Reads an unsigned decimal number that fits a `usize`.
pub fn parse_usize(text: &str) -> (parsed: Option<usize>)
    ensures
        parsed == parsed_usize(text@),
{
    let len: usize = text.unicode_len();
    let start: usize = if len > 0 && text.get_char(0) == '+' {
        1
    } else {
        0
    };
    let ghost digits = text@.skip(start as int);
    proof {
        if start == 0 {
            assert(digits =~= text@);
        }
    }
    let mut value: usize = 0;
    let mut i: usize = start;
    while i < len
        invariant
            start <= i <= len,
            len == text@.len(),
            digits == text@.skip(start as int),
            unsigned_value(text@) == digits_value(digits),
            i == start ==> value == 0,
            i > start ==> digits_value(digits.take(i - start)) == Some(value as nat),
        decreases len - i,
    {
        let ghost front = digits.take(i + 1 - start);
        proof {
            assert(front.drop_last() =~= digits.take(i - start));
            assert(front.last() == text@[i as int]);
        }
        let digit: usize = match digit_of(text.get_char(i)) {
            Some(digit) => digit,
            None => {
                proof {
                    lemma_not_digits(digits, i - start);
                }
                return None;
            },
        };
        let next: Option<usize> = match value.checked_mul(10) {
            Some(tens) => tens.checked_add(digit),
            None => None,
        };
        assert(digits_value(front) == Some((value * 10 + digit) as nat));
        match next {
            Some(more) => {
                value = more;
            },
            None => {
                proof {
                    if digits_value(digits) is Some {
                        lemma_prefix_bound(digits, i + 1 - start);
                    }
                }
                return None;
            },
        }
        i += 1;
    }
    if i == start {
        return None;
    }
    proof {
        assert(digits.take(i - start) =~= digits);
    }
    Some(value)
}

/// Reads a one-based position from the text that the user gave.
///
/// Fails with [`TodoError::InvalidIndex`] exactly when the text is not an
/// unsigned decimal number that fits a `usize`. Zero is a number: that it
/// names no task is for [`crate::store::complete`] to say.
pub fn parse_position(text: &str) -> (result: Result<usize, TodoError>)
    ensures
        result == match parsed_usize(text@) {
            Some(position) => Ok::<usize, TodoError>(position),
            None => Err::<usize, TodoError>(TodoError::InvalidIndex),
        },
{
    match parse_usize(text) {
        Some(position) => Ok(position),
        None => Err(TodoError::InvalidIndex),
    }
}

} // verus!
