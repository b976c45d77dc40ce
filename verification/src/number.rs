//! Number literals: which texts are numbers, and what the whole numbers are
//! worth.

use crate::text::chars_of;
use vstd::prelude::*;

verus! {

/// Whether a character is a decimal digit.
pub open spec fn is_digit(c: char) -> bool {
    '0' as u32 <= c as u32 <= '9' as u32
}

/// What a decimal digit is worth.
pub open spec fn digit_value(c: char) -> int {
    c as u32 - '0' as u32
}

/// The value of `acc` with the digits `s[i..]` written behind it, as long as
/// neither it nor the value of any shorter run of these digits is above
/// `limit`. There is no value where a character is no digit.
pub open spec fn digits_value(s: Seq<char>, i: int, acc: int, limit: int) -> Option<int>
    decreases s.len() - i,
{
    if i < 0 || i >= s.len() {
        Some(acc)
    } else if !is_digit(s[i]) {
        None
    } else {
        let v = acc * 10 + digit_value(s[i]);
        if v > limit {
            None
        } else {
            digits_value(s, i + 1, v, limit)
        }
    }
}

/// The whole number that a text writes: decimal digits, with a sign in
/// front where one is written, and a value that fits in 64 bits.
pub open spec fn integer_value(s: Seq<char>) -> Option<i64> {
    if s.len() == 0 {
        None
    } else if s[0] == '-' || s[0] == '+' {
        if s.len() == 1 {
            None
        } else if s[0] == '-' {
            match digits_value(s, 1, 0, 0x8000_0000_0000_0000) {
                Some(v) => Some((-v) as i64),
                None => None,
            }
        } else {
            match digits_value(s, 1, 0, 0x7fff_ffff_ffff_ffff) {
                Some(v) => Some(v as i64),
                None => None,
            }
        }
    } else {
        match digits_value(s, 0, 0, 0x7fff_ffff_ffff_ffff) {
            Some(v) => Some(v as i64),
            None => None,
        }
    }
}

/// The first position from `i` on that holds no digit.
pub open spec fn digits_end(s: Seq<char>, i: int) -> int
    decreases s.len() - i,
{
    if 0 <= i < s.len() && is_digit(s[i]) {
        digits_end(s, i + 1)
    } else {
        i
    }
}

/// Whether a character is a sign.
pub open spec fn is_sign(c: char) -> bool {
    c == '+' || c == '-'
}

/// The position of the first point from `i` on.
pub open spec fn first_point(s: Seq<char>, i: int) -> Option<int>
    decreases s.len() - i,
{
    if i < 0 || i >= s.len() {
        None
    } else if s[i] == '.' {
        Some(i)
    } else {
        first_point(s, i + 1)
    }
}

/// Whether a text holds a decimal point.
pub open spec fn has_point(s: Seq<char>) -> bool {
    first_point(s, 0) is Some
}

/// Whether a text writes a real number with a point: a sign where one is
/// written; digits, a point and digits, with at least one digit on one side
/// of the point; and an exponent where one is written, which is `e` or `E`,
/// a sign where one is written, and at least one digit. Nothing may stand in
/// front or behind.
pub open spec fn real_text(s: Seq<char>) -> bool {
    let start: int = if s.len() > 0 && is_sign(s[0]) {
        1
    } else {
        0
    };
    let point = digits_end(s, start);
    if !(point < s.len() && s[point] == '.') {
        false
    } else {
        let fraction_end = digits_end(s, point + 1);
        if fraction_end - start < 2 {
            false
        } else if fraction_end == s.len() {
            true
        } else if !(s[fraction_end] == 'e' || s[fraction_end] == 'E') {
            false
        } else {
            let exponent: int = if fraction_end + 1 < s.len() && is_sign(s[fraction_end + 1]) {
                fraction_end + 2
            } else {
                fraction_end + 1
            };
            let exponent_end = digits_end(s, exponent);
            exponent_end > exponent && exponent_end == s.len()
        }
    }
}

fn digit_of(c: char) -> (r: Option<u8>)
    ensures
        match r {
            Some(d) => is_digit(c) && d == digit_value(c),
            None => !is_digit(c),
        },
{
    let code = c as u32;
    if 48 <= code && code <= 57 {
        Some((code - 48) as u8)
    } else {
        None
    }
}

fn digits(chars: &Vec<char>, from: usize, limit: u64) -> (r: Option<u64>)
    requires
        limit <= 0x8000_0000_0000_0000,
    ensures
        match r {
            Some(v) => v <= limit && digits_value(chars@, from as int, 0, limit as int) == Some(
                v as int,
            ),
            None => digits_value(chars@, from as int, 0, limit as int) is None,
        },
{
    let mut acc: u64 = 0;
    let mut i: usize = from;
    while i < chars.len()
        invariant
            limit <= 0x8000_0000_0000_0000,
            acc <= limit,
            digits_value(chars@, from as int, 0, limit as int) == digits_value(
                chars@,
                i as int,
                acc as int,
                limit as int,
            ),
        decreases chars.len() - i,
    {
        match digit_of(chars[i]) {
            Some(d) => {
                let v: u128 = acc as u128 * 10 + d as u128;
                if v > limit as u128 {
                    return None;
                }
                acc = v as u64;
            },
            None => {
                return None;
            },
        }
        i = i + 1;
    }
    Some(acc)
}

/// Reads a whole number.
pub fn parse_integer(s: &str) -> (r: Option<i64>)
    ensures
        r == integer_value(s@),
{
    let chars = chars_of(s);
    if chars.len() == 0 {
        None
    } else if chars[0] == '-' {
        if chars.len() == 1 {
            return None;
        }
        match digits(&chars, 1, 0x8000_0000_0000_0000) {
            Some(v) => if v == 0x8000_0000_0000_0000 {
                Some(i64::MIN)
            } else {
                Some(-(v as i64))
            },
            None => None,
        }
    } else if chars[0] == '+' {
        if chars.len() == 1 {
            return None;
        }
        match digits(&chars, 1, 0x7fff_ffff_ffff_ffff) {
            Some(v) => Some(v as i64),
            None => None,
        }
    } else {
        match digits(&chars, 0, 0x7fff_ffff_ffff_ffff) {
            Some(v) => Some(v as i64),
            None => None,
        }
    }
}

fn end_of_digits(chars: &Vec<char>, from: usize) -> (r: usize)
    requires
        from <= chars.len(),
    ensures
        r == digits_end(chars@, from as int),
        from <= r <= chars.len(),
{
    let mut i: usize = from;
    while i < chars.len() && digit_of(chars[i]).is_some()
        invariant
            from <= i <= chars.len(),
            digits_end(chars@, from as int) == digits_end(chars@, i as int),
        decreases chars.len() - i,
    {
        i = i + 1;
    }
    i
}

fn point_in(chars: &Vec<char>) -> (r: Option<usize>)
    ensures
        match r {
            Some(k) => first_point(chars@, 0) == Some(k as int) && k < chars.len(),
            None => first_point(chars@, 0) is None,
        },
{
    let mut i: usize = 0;
    while i < chars.len()
        invariant
            i <= chars.len(),
            first_point(chars@, 0) == first_point(chars@, i as int),
        decreases chars.len() - i,
    {
        if chars[i] == '.' {
            return Some(i);
        }
        i = i + 1;
    }
    None
}

/// Whether a text holds a decimal point.
pub fn holds_point(s: &str) -> (r: bool)
    ensures
        r == has_point(s@),
{
    point_in(&chars_of(s)).is_some()
}

/// Whether a text writes a real number with a point.
pub fn is_real(s: &str) -> (r: bool)
    ensures
        r == real_text(s@),
{
    let chars = chars_of(s);
    let start: usize = if chars.len() > 0 && (chars[0] == '+' || chars[0] == '-') {
        1
    } else {
        0
    };
    let point = end_of_digits(&chars, start);
    if !(point < chars.len() && chars[point] == '.') {
        return false;
    }
    let fraction_end = end_of_digits(&chars, point + 1);
    if fraction_end - start < 2 {
        return false;
    }
    if fraction_end == chars.len() {
        return true;
    }
    if !(chars[fraction_end] == 'e' || chars[fraction_end] == 'E') {
        return false;
    }
    let exponent: usize = if fraction_end + 1 < chars.len() && (chars[fraction_end + 1] == '+'
        || chars[fraction_end + 1] == '-') {
        fraction_end + 2
    } else {
        fraction_end + 1
    };
    let exponent_end = end_of_digits(&chars, exponent);
    exponent_end > exponent && exponent_end == chars.len()
}

} // verus!
