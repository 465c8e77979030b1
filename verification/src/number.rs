//! Decimal integer literals.
//!
//! A literal is an optional `-` followed by one or more of the digits `0` to
//! `9`. Nothing else is one: no `+` sign, no fraction, no digit group
//! separators. Leading zeros are accepted.

use vstd::prelude::*;
use vstd::string::StringExecFns;

verus! {

/// Whether `c` is one of the digits `0` to `9`.
pub open spec fn is_digit(c: char) -> bool {
    0x30 <= c as u32 <= 0x39
}

/// The value of the digit `c`.
pub open spec fn digit_value(c: char) -> int {
    c as u32 - 0x30
}

/// Whether `s` holds digits only.
pub open spec fn all_digits(s: Seq<char>) -> bool {
    forall|i: int| 0 <= i < s.len() ==> is_digit(#[trigger] s[i])
}

/// The number that the digits `s` denote in base ten, most significant digit
/// first.
pub open spec fn digits_value(s: Seq<char>) -> int
    decreases s.len(),
{
    if s.len() == 0 {
        0
    } else {
        10 * digits_value(s.drop_last()) + digit_value(s.last())
    }
}

/// The integer that `s` denotes, if `s` is a literal.
pub open spec fn literal_value(s: Seq<char>) -> Option<int> {
    if s.len() > 0 && s[0] == '-' {
        if s.len() > 1 && all_digits(s.skip(1)) {
            Some(-digits_value(s.skip(1)))
        } else {
            None
        }
    } else if s.len() > 0 && all_digits(s) {
        Some(digits_value(s))
    } else {
        None
    }
}

/// What `parse_i32` returns: the value of the literal `s`, if `s` is one and
/// its value is in the range of `i32`.
pub open spec fn parse_i32_spec(s: Seq<char>) -> Option<i32> {
    match literal_value(s) {
        Some(v) => if i32::MIN <= v <= i32::MAX {
            Some(v as i32)
        } else {
            None
        },
        None => None,
    }
}

/// Reads `text` as a decimal literal of type `i32`.
pub fn parse_i32(text: &[char]) -> (value: Option<i32>)
    ensures
        value == parse_i32_spec(text@),
{
    let negative: bool = text.len() > 0 && text[0] == '-';
    let start: usize = if negative {
        1
    } else {
        0
    };
    if start == text.len() {
        return None;
    }
    let ghost digits = text@.skip(start as int);
    // The value of the digits read so far, or `limit` if it is that or more.
    // No `i32` has a magnitude of `limit`.
    let limit: u64 = 0x8000_0001;
    let mut total: u64 = 0;
    let mut i: usize = start;
    while i < text.len()
        invariant
            start <= i <= text.len(),
            negative == (text@[0] == '-'),
            start == if negative {
                1int
            } else {
                0int
            },
            digits == text@.skip(start as int),
            all_digits(digits.take(i - start)),
            limit == 0x8000_0001,
            total == if digits_value(digits.take(i - start)) < limit {
                digits_value(digits.take(i - start))
            } else {
                limit as int
            },
        decreases text.len() - i,
    {
        let code: u32 = text[i] as u32;
        if code < 0x30 || code > 0x39 {
            assert(!is_digit(digits[i - start]));
            return None;
        }
        assert(digits.take(i - start + 1).drop_last() == digits.take(i - start));
        let next: u64 = total * 10 + (code - 0x30) as u64;
        total = if next < limit {
            next
        } else {
            limit
        };
        i += 1;
    }
    assert(digits.take(text.len() - start) == digits);
    assert(!negative ==> digits == text@);
    if negative {
        if total <= 0x8000_0000 {
            Some((-(total as i64)) as i32)
        } else {
            None
        }
    } else {
        if total <= 0x7fff_ffff {
            Some(total as i32)
        } else {
            None
        }
    }
}

/// The character that stands for the digit `d`.
pub open spec fn digit_char(d: int) -> char
    recommends
        0 <= d < 10,
{
    (d + 0x30) as char
}

/// The digits of `n` in base ten, most significant first, without leading
/// zeros.
pub open spec fn digits_of(n: nat) -> Seq<char>
    decreases n,
{
    if n < 10 {
        seq![digit_char(n as int)]
    } else {
        digits_of(n / 10).push(digit_char((n % 10) as int))
    }
}

/// The usual way to write the integer `v` in base ten: its digits, after a
/// `-` if it is negative.
pub open spec fn decimal(v: int) -> Seq<char> {
    if v < 0 {
        seq!['-'] + digits_of((-v) as nat)
    } else {
        digits_of(v as nat)
    }
}

/// The digits of `n` are digits, at least one, and denote `n`.
pub proof fn lemma_digits_of(n: nat)
    ensures
        digits_of(n).len() > 0,
        all_digits(digits_of(n)),
        digits_value(digits_of(n)) == n,
    decreases n,
{
    if n < 10 {
        assert(digits_value(digits_of(n).drop_last()) == 0);
    } else {
        lemma_digits_of(n / 10);
        assert(digits_of(n).drop_last() == digits_of(n / 10));
    }
}

/// Reading back what `decimal` writes gives the same integer.
pub proof fn lemma_decimal_round_trip(v: int)
    ensures
        literal_value(decimal(v)) == Some(v),
{
    if v < 0 {
        lemma_digits_of((-v) as nat);
        assert(decimal(v).skip(1) == digits_of((-v) as nat));
    } else {
        lemma_digits_of(v as nat);
    }
}

/// The digit `d` as a string.
fn digit_str(d: u8) -> (s: &'static str)
    requires
        d < 10,
    ensures
        s@ == seq![digit_char(d as int)],
{
    proof {
        reveal_strlit("0");
        reveal_strlit("1");
        reveal_strlit("2");
        reveal_strlit("3");
        reveal_strlit("4");
        reveal_strlit("5");
        reveal_strlit("6");
        reveal_strlit("7");
        reveal_strlit("8");
        reveal_strlit("9");
    }
    match d {
        0 => "0",
        1 => "1",
        2 => "2",
        3 => "3",
        4 => "4",
        5 => "5",
        6 => "6",
        7 => "7",
        8 => "8",
        _ => "9",
    }
}

/// Writes the natural number `n` in base ten.
pub fn natural_to_string(n: u64) -> (s: String)
    ensures
        s@ == decimal(n as int),
    decreases n,
{
    let mut s: String = if n < 10 {
        String::new()
    } else {
        natural_to_string(n / 10)
    };
    s.append(digit_str((n % 10) as u8));
    s
}

/// Writes `v` in base ten, with a `-` in front if it is negative.
pub fn integer_to_string(v: i32) -> (s: String)
    ensures
        s@ == decimal(v as int),
{
    if v < 0 {
        proof {
            reveal_strlit("-");
        }
        let mut s: String = String::from_str("-");
        let digits: String = natural_to_string((-(v as i64)) as u64);
        s.append(digits.as_str());
        s
    } else {
        natural_to_string(v as u64)
    }
}

} // verus!
