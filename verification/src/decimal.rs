//! Numbers in decimal notation: writing them and reading them back.
use vstd::prelude::*;
use crate::text;

verus! {

/// The digit that stands for a number below ten.
pub open spec fn digit_char(d: nat) -> char {
    (('0' as u8) + d as u8) as u8 as char
}

/// The number that a digit stands for.
pub open spec fn digit_value(c: char) -> nat {
    (c as int - '0' as int) as nat
}

/// The decimal notation of a number, without leading zeros.
pub open spec fn decimal(n: nat) -> Seq<char>
    decreases n,
{
    if n < 10 {
        seq![digit_char(n)]
    } else {
        decimal(n / 10).push(digit_char(n % 10))
    }
}

/// The decimal notation of a number that may be negative.
pub open spec fn signed_decimal(n: int) -> Seq<char> {
    if n < 0 {
        seq!['-'] + decimal((-n) as nat)
    } else {
        decimal(n as nat)
    }
}

/// Whether every character is a digit.
pub open spec fn all_digits(text: Seq<char>) -> bool {
    forall|i: int| 0 <= i < text.len() ==> text::is_digit(#[trigger] text[i])
}

/// The number that a run of digits stands for.
pub open spec fn digits_value(text: Seq<char>) -> nat
    decreases text.len(),
{
    if text.len() == 0 {
        0
    } else {
        digits_value(text.drop_last()) * 10 + digit_value(text.last())
    }
}

/// Whether the text is a run of digits, at least one, for a number up to `max`.
pub open spec fn reads_as_digits(text: Seq<char>, max: nat) -> bool {
    text.len() > 0 && all_digits(text) && digits_value(text) <= max
}

/// The number that the text stands for: digits, after one plus sign at most,
/// and no number above `max`.
pub open spec fn parse_unsigned(text: Seq<char>, max: nat) -> Option<nat> {
    let digits = if text.len() > 0 && text[0] == '+' {
        text.drop_first()
    } else {
        text
    };
    if reads_as_digits(digits, max) {
        Some(digits_value(digits))
    } else {
        None
    }
}

fn digit_of(d: u64) -> (c: char)
    requires
        d < 10,
    ensures
        c == digit_char(d as nat),
{
    (48u8 + d as u8) as char
}

/// Writes a number in decimal notation.
pub fn decimal_text(n: u64) -> (text: String)
    ensures
        text@ == decimal(n as nat),
    decreases n,
{
    if n < 10 {
        let mut text = String::new();
        text.push(digit_of(n));
        assert(text@ =~= decimal(n as nat));
        text
    } else {
        let mut text = decimal_text(n / 10);
        text.push(digit_of(n % 10));
        text
    }
}

/// Writes a number that may be negative in decimal notation.
pub fn signed_decimal_text(n: i32) -> (text: String)
    ensures
        text@ == signed_decimal(n as int),
{
    if n < 0 {
        let magnitude = decimal_text((-(n as i64)) as u64);
        let mut text = String::new();
        text.push('-');
        vstd::string::StringExecFns::append(&mut text, magnitude.as_str());
        assert(text@ =~= signed_decimal(n as int));
        text
    } else {
        decimal_text(n as u64)
    }
}

/// Digits that are appended never make the number smaller.
proof fn lemma_digits_value_prefix(text: Seq<char>, i: int)
    requires
        0 <= i <= text.len(),
        all_digits(text),
    ensures
        digits_value(text.take(i)) <= digits_value(text),
    decreases text.len(),
{
    if i == text.len() {
        assert(text.take(i) =~= text);
    } else {
        assert(text.drop_last().take(i) =~= text.take(i));
        lemma_digits_value_prefix(text.drop_last(), i);
    }
}

fn parse_digits(text: &[char], max: u32) -> (value: Option<u32>)
    ensures
        match value {
            Some(v) => reads_as_digits(text@, max as nat) && v == digits_value(text@),
            None => !reads_as_digits(text@, max as nat),
        },
{
    if text.len() == 0 {
        return None;
    }
    let mut value: u64 = 0;
    let mut i: usize = 0;
    while i < text.len()
        invariant
            i <= text.len(),
            value <= max <= u32::MAX,
            forall|k: int| 0 <= k < i ==> text::is_digit(text@[k]),
            value == digits_value(text@.take(i as int)),
        decreases text.len() - i,
    {
        let c = text[i];
        if !text::char_is_digit(c) {
            return None;
        }
        let digit: u64 = (c as u32 - '0' as u32) as u64;
        assert(text@.take(i + 1).drop_last() =~= text@.take(i as int));
        value = value * 10 + digit;
        if value > max as u64 {
            proof {
                if all_digits(text@) {
                    lemma_digits_value_prefix(text@, i + 1);
                }
            }
            return None;
        }
        i += 1;
    }
    assert(text@.take(text@.len() as int) =~= text@);
    Some(value as u32)
}

/// Reads an unsigned number of at most 32 bits.
pub fn parse_u32(text: &[char]) -> (value: Option<u32>)
    ensures
        match value {
            Some(v) => parse_unsigned(text@, u32::MAX as nat) == Some(v as nat),
            None => parse_unsigned(text@, u32::MAX as nat) is None,
        },
{
    parse_bounded(text, u32::MAX)
}

/// Reads an unsigned number of at most 16 bits.
pub fn parse_u16(text: &[char]) -> (value: Option<u16>)
    ensures
        match value {
            Some(v) => parse_unsigned(text@, u16::MAX as nat) == Some(v as nat),
            None => parse_unsigned(text@, u16::MAX as nat) is None,
        },
{
    match parse_bounded(text, 65535) {
        Some(v) => Some(v as u16),
        None => None,
    }
}

fn parse_bounded(text: &[char], max: u32) -> (value: Option<u32>)
    ensures
        match value {
            Some(v) => parse_unsigned(text@, max as nat) == Some(v as nat) && v <= max,
            None => parse_unsigned(text@, max as nat) is None,
        },
{
    if text.len() > 0 && text[0] == '+' {
        let digits = text::chars_between(text, 1, text.len());
        assert(digits@ =~= text@.drop_first());
        parse_digits(&digits, max)
    } else {
        parse_digits(text, max)
    }
}

/// Reading the decimal notation of a number gives the number back.
pub proof fn decimal_reads_back(n: nat)
    ensures
        decimal(n).len() > 0,
        all_digits(decimal(n)),
        digits_value(decimal(n)) == n,
    decreases n,
{
    if n < 10 {
        let text = decimal(n);
        assert(text.drop_last() =~= seq![]);
        assert(digits_value(text.drop_last()) == 0);
    } else {
        decimal_reads_back(n / 10);
        let text = decimal(n);
        assert(text.drop_last() =~= decimal(n / 10));
        assert forall|i: int| 0 <= i < text.len() implies text::is_digit(#[trigger] text[i]) by {
            if i < text.len() - 1 {
                assert(text[i] == decimal(n / 10)[i]);
            }
        }
    }
}

} // verus!
