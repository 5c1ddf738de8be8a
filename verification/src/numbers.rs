//! Decimal integers, read from text and written to it.

use crate::text;
use crate::text::{chars_of, is_ascii_digit};
use vstd::prelude::*;

verus! {

/// Why a text is no integer of the wanted range.
#[derive(Clone, Copy, Debug, PartialEq, Eq, Structural)]
pub enum IntError {
    Empty,
    InvalidDigit,
    TooLarge,
    TooSmall,
}

impl IntError {
    /// The reason in words.
    pub open spec fn text(self) -> Seq<char> {
        match self {
            IntError::Empty => "cannot parse integer from empty string"@,
            IntError::InvalidDigit => "invalid digit found in string"@,
            IntError::TooLarge => "number too large to fit in target type"@,
            IntError::TooSmall => "number too small to fit in target type"@,
        }
    }

    /// The reason in words.
    pub fn reason(self) -> (reason: &'static str)
        ensures
            reason@ == self.text(),
    {
        match self {
            IntError::Empty => "cannot parse integer from empty string",
            IntError::InvalidDigit => "invalid digit found in string",
            IntError::TooLarge => "number too large to fit in target type",
            IntError::TooSmall => "number too small to fit in target type",
        }
    }
}

/// The number that `digits` write, up to `limit`; the first character that is no digit, or that
/// takes the number past `limit`, decides the error.
pub open spec fn magnitude(digits: Seq<char>, limit: int, past: IntError) -> Result<int, IntError>
    decreases digits.len(),
{
    if digits.len() == 0 {
        Ok(0)
    } else {
        match magnitude(digits.drop_last(), limit, past) {
            Err(error) => Err(error),
            Ok(value) => {
                let next = 10 * value + (digits.last() as int - '0' as int);
                if !text::ascii_digit(digits.last()) {
                    Err(IntError::InvalidDigit)
                } else if next > limit {
                    Err(past)
                } else {
                    Ok(next)
                }
            },
        }
    }
}

/// The integer that `text` writes, between `low` and `high`. A sign may stand before the digits:
/// `+` always, `-` where negative numbers are in range.
pub open spec fn integer(text: Seq<char>, low: int, high: int) -> Result<int, IntError> {
    if text.len() == 0 {
        Err(IntError::Empty)
    } else if text.len() == 1 && (text[0] == '+' || text[0] == '-') {
        Err(IntError::InvalidDigit)
    } else if text[0] == '+' {
        magnitude(text.skip(1), high, IntError::TooLarge)
    } else if text[0] == '-' && low < 0 {
        match magnitude(text.skip(1), -low, IntError::TooSmall) {
            Ok(value) => Ok(-value),
            Err(error) => Err(error),
        }
    } else {
        magnitude(text, high, IntError::TooLarge)
    }
}

/// An error comes early and stays: no longer text makes up for it.
proof fn magnitude_keeps_error(digits: Seq<char>, at: int, limit: int, past: IntError)
    requires
        0 <= at <= digits.len(),
        magnitude(digits.take(at), limit, past) is Err,
    ensures
        magnitude(digits, limit, past) == magnitude(digits.take(at), limit, past),
    decreases digits.len() - at,
{
    if at < digits.len() {
        assert(digits.take(at + 1).drop_last() =~= digits.take(at));
        magnitude_keeps_error(digits, at + 1, limit, past);
    } else {
        assert(digits.take(at) =~= digits);
    }
}

fn read_magnitude(chars: &Vec<char>, from: usize, limit: u64, past: IntError) -> (value: Result<
    u64,
    IntError,
>)
    requires
        from <= chars.len(),
    ensures
        match value {
            Ok(number) => number <= limit && magnitude(chars@.skip(from as int), limit as int, past)
                == Ok::<int, IntError>(number as int),
            Err(error) => magnitude(chars@.skip(from as int), limit as int, past) == Err::<
                int,
                IntError,
            >(error),
        },
{
    let ghost digits = chars@.skip(from as int);
    let mut value: u64 = 0;
    let mut index: usize = from;
    assert(digits.take(0) =~= seq![]);
    while index < chars.len()
        invariant
            from <= index <= chars.len(),
            digits == chars@.skip(from as int),
            value <= limit,
            magnitude(digits.take(index - from), limit as int, past) == Ok::<int, IntError>(
                value as int,
            ),
        decreases chars.len() - index,
    {
        let ch = chars[index];
        let ghost next = digits.take(index - from + 1);
        proof {
            assert(next.drop_last() =~= digits.take(index - from));
            assert(next.last() == ch);
        }
        if !is_ascii_digit(ch) {
            proof {
                magnitude_keeps_error(digits, index - from + 1, limit as int, past);
            }
            return Err(IntError::InvalidDigit);
        }
        let digit: u8 = ch as u8 - 48;
        let grown: u128 = value as u128 * 10 + digit as u128;
        if grown > limit as u128 {
            proof {
                magnitude_keeps_error(digits, index - from + 1, limit as int, past);
            }
            return Err(past);
        }
        value = grown as u64;
        index = index + 1;
    }
    assert(digits.take(digits.len() as int) =~= digits);
    Ok(value)
}

/// The natural number that `text` writes, up to `high`.
pub fn read_unsigned(text: &str, high: u64) -> (value: Result<u64, IntError>)
    ensures
        match value {
            Ok(number) => number <= high && integer(text@, 0, high as int) == Ok::<int, IntError>(
                number as int,
            ),
            Err(error) => integer(text@, 0, high as int) == Err::<int, IntError>(error),
        },
{
    let chars = chars_of(text);
    if chars.len() == 0 {
        return Err(IntError::Empty);
    }
    if chars.len() == 1 && (chars[0] == '+' || chars[0] == '-') {
        return Err(IntError::InvalidDigit);
    }
    if chars[0] == '+' {
        return read_magnitude(&chars, 1, high, IntError::TooLarge);
    }
    assert(text@.skip(0) =~= text@);
    read_magnitude(&chars, 0, high, IntError::TooLarge)
}

/// The `u16` that `text` writes.
pub fn read_u16(text: &str) -> (value: Result<u16, IntError>)
    ensures
        integer(text@, 0, u16::MAX as int) == (match value {
            Ok(number) => Ok::<int, IntError>(number as int),
            Err(error) => Err(error),
        }),
{
    match read_unsigned(text, u16::MAX as u64) {
        Ok(number) => Ok(number as u16),
        Err(error) => Err(error),
    }
}

/// The `u32` that `text` writes.
pub fn read_u32(text: &str) -> (value: Result<u32, IntError>)
    ensures
        integer(text@, 0, u32::MAX as int) == (match value {
            Ok(number) => Ok::<int, IntError>(number as int),
            Err(error) => Err(error),
        }),
{
    match read_unsigned(text, u32::MAX as u64) {
        Ok(number) => Ok(number as u32),
        Err(error) => Err(error),
    }
}

/// The `usize` that `text` writes.
pub fn read_usize(text: &str) -> (value: Result<usize, IntError>)
    ensures
        integer(text@, 0, usize::MAX as int) == (match value {
            Ok(number) => Ok::<int, IntError>(number as int),
            Err(error) => Err(error),
        }),
{
    match read_unsigned(text, usize::MAX as u64) {
        Ok(number) => Ok(number as usize),
        Err(error) => Err(error),
    }
}

/// The `i32` that `text` writes.
pub fn read_i32(text: &str) -> (value: Result<i32, IntError>)
    ensures
        integer(text@, i32::MIN as int, i32::MAX as int) == (match value {
            Ok(number) => Ok::<int, IntError>(number as int),
            Err(error) => Err(error),
        }),
{
    let chars = chars_of(text);
    if chars.len() > 1 && chars[0] == '-' {
        return match read_magnitude(&chars, 1, 0x8000_0000, IntError::TooSmall) {
            Ok(number) => Ok((-(number as i64)) as i32),
            Err(error) => Err(error),
        };
    }
    match read_unsigned(text, i32::MAX as u64) {
        Ok(number) => Ok(number as i32),
        Err(error) => Err(error),
    }
}

/// The decimal digits of `value`, without leading zeros.
pub open spec fn decimal(value: nat) -> Seq<char>
    decreases value,
{
    let digit = (('0' as u32) + value % 10) as char;
    if value < 10 {
        seq![digit]
    } else {
        decimal(value / 10).push(digit)
    }
}

/// `value` in decimal, with a `-` before a negative one.
pub open spec fn signed_decimal(value: int) -> Seq<char> {
    if value < 0 {
        seq!['-'] + decimal((-value) as nat)
    } else {
        decimal(value as nat)
    }
}

/// `value` in decimal.
pub fn write_decimal(value: u64) -> (text: String)
    ensures
        text@ == decimal(value as nat),
    decreases value,
{
    let digit: char = (48 + (value % 10) as u8) as char;
    if value < 10 {
        let mut text = String::new();
        text.push(digit);
        assert(text@ =~= seq![digit]);
        text
    } else {
        let mut text = write_decimal(value / 10);
        text.push(digit);
        text
    }
}

/// `value` in decimal, with a `-` before a negative one.
pub fn write_signed(value: i64) -> (text: String)
    ensures
        text@ == signed_decimal(value as int),
{
    if value < 0 {
        let mut text = String::new();
        text.push('-');
        let size: u64 = (-(value as i128)) as u64;
        let digits = write_decimal(size);
        text.append(digits.as_str());
        assert(text@ =~= seq!['-'] + decimal((-value) as nat));
        text
    } else {
        write_decimal(value as u64)
    }
}

/// The number that decimal digits write is the number that was written.
pub proof fn decimal_reads_back(value: nat, limit: int)
    requires
        value <= limit,
    ensures
        magnitude(decimal(value), limit, IntError::TooLarge) == Ok::<int, IntError>(value as int),
        decimal(value).len() > 0,
        forall|i: int| 0 <= i < decimal(value).len() ==> text::ascii_digit(decimal(value)[i]),
    decreases value,
{
    let digit = (('0' as u32) + value % 10) as char;
    assert(text::ascii_digit(digit));
    if value < 10 {
        assert(seq![digit].drop_last() =~= seq![]);
        assert(magnitude(seq![], limit, IntError::TooLarge) == Ok::<int, IntError>(0));
    } else {
        decimal_reads_back(value / 10, limit);
        assert(decimal(value).drop_last() =~= decimal(value / 10));
    }
}

/// Reading a written natural number gives it back.
pub proof fn unsigned_round_trip(value: nat, high: int)
    requires
        value <= high,
    ensures
        integer(decimal(value), 0, high) == Ok::<int, IntError>(value as int),
{
    decimal_reads_back(value, high);
    assert(text::ascii_digit(decimal(value)[0]));
}

/// Reading a written integer gives it back.
pub proof fn signed_round_trip(value: int, low: int, high: int)
    requires
        low <= value <= high,
        low < 0,
    ensures
        integer(signed_decimal(value), low, high) == Ok::<int, IntError>(value),
{
    if value < 0 {
        decimal_reads_back((-value) as nat, -low);
        let text = signed_decimal(value);
        assert(text.skip(1) =~= decimal((-value) as nat));
        magnitude_names_only_the_error(decimal((-value) as nat), -low, IntError::TooLarge, IntError::TooSmall);
    } else {
        unsigned_round_trip(value as nat, high);
        decimal_reads_back(value as nat, high);
        assert(text::ascii_digit(decimal(value as nat)[0]));
    }
}

proof fn magnitude_names_only_the_error(digits: Seq<char>, limit: int, one: IntError, other: IntError)
    requires
        magnitude(digits, limit, one) is Ok,
    ensures
        magnitude(digits, limit, other) == magnitude(digits, limit, one),
    decreases digits.len(),
{
    if digits.len() > 0 {
        magnitude_names_only_the_error(digits.drop_last(), limit, one, other);
    }
}

} // verus!
