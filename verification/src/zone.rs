//! Zone offsets at the end of an entered time.
//!
//! A time may end with the offset of its zone from UTC: a sign, two digits
//! of hours and two digits of minutes, with or without a colon between
//! them. No zone lies a day or more from UTC, and a text that ends with such
//! an offset after a time names no moment.

use vstd::prelude::*;

verus! {

/// Whether the character is a decimal digit.
pub open spec fn is_digit(c: char) -> bool {
    '0' <= c <= '9'
}

/// The value of a decimal digit.
pub open spec fn digit_value(c: char) -> int {
    c as u32 - '0' as u32
}

/// Whether the character is a sign.
pub open spec fn is_sign(c: char) -> bool {
    c == '+' || c == '-'
}

/// Whether the character is blank: anything but a visible ASCII character.
pub open spec fn is_blank(c: char) -> bool {
    c <= ' ' || c > '~'
}

/// Whether the character may stand in the name or the offset of a zone: a
/// letter, a digit, or one of `+ , - . / :`.
pub open spec fn is_zone_char(c: char) -> bool {
    '+' <= c <= ':' || 'a' <= c <= 'z' || 'A' <= c <= 'Z'
}

/// Whether two characters are the digits of a minute, from 00 to 59.
pub open spec fn is_minute(tens: char, ones: char) -> bool {
    '0' <= tens <= '5' && is_digit(ones)
}

/// Whether the text from `at` to its end is an offset of a day or more: a
/// sign, two digits of at least 24 hours, and two digits of minutes, either
/// after a colon or followed by at most one more character of a zone.
pub open spec fn is_wild_offset(text: Seq<char>, at: int) -> bool {
    let rest = text.len() - at;
    &&& 0 <= at
    &&& rest == 5 || rest == 6
    &&& is_sign(text[at])
    &&& is_digit(text[at + 1])
    &&& is_digit(text[at + 2])
    &&& 10 * digit_value(text[at + 1]) + digit_value(text[at + 2]) >= 24
    &&& {
        ||| is_minute(text[at + 3], text[at + 4]) && (rest == 6 ==> is_zone_char(text[at + 5]))
        ||| rest == 6 && text[at + 3] == ':' && is_minute(text[at + 4], text[at + 5])
    }
}

/// The place before `at` where the blanks that end at `at` begin.
pub open spec fn skip_blanks(text: Seq<char>, at: int) -> int
    decreases at,
{
    if at > 0 && is_blank(text[at - 1]) {
        skip_blanks(text, at - 1)
    } else {
        at
    }
}

/// Whether what stands before `at` ends with `am`, `pm`, `AM` or `PM`.
pub open spec fn ends_half_day(text: Seq<char>, at: int) -> bool {
    at >= 2 && ((text[at - 1] == 'm' && (text[at - 2] == 'a' || text[at - 2] == 'p')) || (text[at
        - 1] == 'M' && (text[at - 2] == 'A' || text[at - 2] == 'P')))
}

/// Whether what stands before `at` ends a time: blanks set aside, it ends
/// with a digit, or it ends with `am`, `pm`, `AM` or `PM` and a blank follows.
pub open spec fn ends_time(text: Seq<char>, at: int) -> bool {
    let end = skip_blanks(text, at);
    end > 0 && (is_digit(text[end - 1]) || (end < at && ends_half_day(text, end)))
}

/// Whether the text ends, after a time, with the offset of a zone that lies
/// a day or more from UTC.
pub open spec fn has_wild_zone(text: Seq<char>) -> bool {
    ||| text.len() >= 5 && is_wild_offset(text, text.len() - 5) && ends_time(text, text.len() - 5)
    ||| text.len() >= 6 && is_wild_offset(text, text.len() - 6) && ends_time(text, text.len() - 6)
}

/// Whether the text may be read as a moment: it does not end, after a time,
/// with the offset of a zone that lies a day or more from UTC.
pub open spec fn admits(text: Seq<char>) -> bool {
    !has_wild_zone(text)
}

/// Whether the character is a decimal digit.
fn digit(c: char) -> (yes: bool)
    ensures
        yes == is_digit(c),
{
    '0' <= c && c <= '9'
}

/// Whether two characters are the digits of a minute.
fn minute(tens: char, ones: char) -> (yes: bool)
    ensures
        yes == is_minute(tens, ones),
{
    '0' <= tens && tens <= '5' && digit(ones)
}

/// Whether the character may stand in the name or the offset of a zone.
fn zone_char(c: char) -> (yes: bool)
    ensures
        yes == is_zone_char(c),
{
    ('+' <= c && c <= ':') || ('a' <= c && c <= 'z') || ('A' <= c && c <= 'Z')
}

/// Whether the text from `at` to its end is an offset of a day or more.
fn wild_offset(text: &str, len: usize, at: usize) -> (yes: bool)
    requires
        len == text@.len(),
        at <= len,
        len - at == 5 || len - at == 6,
    ensures
        yes == is_wild_offset(text@, at as int),
{
    let sign = text.get_char(at);
    let tens = text.get_char(at + 1);
    let ones = text.get_char(at + 2);
    if !(sign == '+' || sign == '-') || !digit(tens) || !digit(ones) {
        return false;
    }
    let hours: u32 = 10 * (tens as u32 - '0' as u32) + (ones as u32 - '0' as u32);
    if hours < 24 {
        return false;
    }
    let third = text.get_char(at + 3);
    let fourth = text.get_char(at + 4);
    if len - at == 5 {
        minute(third, fourth)
    } else {
        let fifth = text.get_char(at + 5);
        (minute(third, fourth) && zone_char(fifth)) || (third == ':' && minute(fourth, fifth))
    }
}

/// Whether what stands before `at` ends a time.
fn time_before(text: &str, len: usize, at: usize) -> (yes: bool)
    requires
        len == text@.len(),
        at <= len,
    ensures
        yes == ends_time(text@, at as int),
{
    let mut end: usize = at;
    while end > 0 && blank(text.get_char(end - 1))
        invariant
            end <= at <= len,
            len == text@.len(),
            skip_blanks(text@, end as int) == skip_blanks(text@, at as int),
        decreases end,
    {
        end -= 1;
    }
    if end == 0 {
        return false;
    }
    let last = text.get_char(end - 1);
    if digit(last) {
        return true;
    }
    if end == at || end < 2 {
        return false;
    }
    let before = text.get_char(end - 2);
    (last == 'm' && (before == 'a' || before == 'p')) || (last == 'M' && (before == 'A' || before
        == 'P'))
}

/// Whether the character is blank.
fn blank(c: char) -> (yes: bool)
    ensures
        yes == is_blank(c),
{
    c <= ' ' || c > '~'
}

/// Whether the text may be read as a moment.
pub fn is_admitted(text: &str) -> (admitted: bool)
    ensures
        admitted == admits(text@),
{
    let len = text.unicode_len();
    if len >= 5 && wild_offset(text, len, len - 5) && time_before(text, len, len - 5) {
        return false;
    }
    if len >= 6 && wild_offset(text, len, len - 6) && time_before(text, len, len - 6) {
        return false;
    }
    true
}

} // verus!
