//! Single settings: booleans and integers.

use crate::config::floats;
use crate::config::floats::{Double, DoubleReading, Readings, Sign, Single, SingleReading};
use crate::config::values;
use crate::config::values::{bad_value_error, Pairs, Values};
use crate::errors;
use crate::errors::{CompositorError, Failure};
use crate::numbers;
use crate::numbers::{read_i32, read_u16, read_u32};
use crate::text;
use crate::text::{same_text, to_lowercase, trim};
use vstd::prelude::*;

verus! {

/// The `u32` that `raw` writes.
pub open spec fn u32_value(key: Seq<char>, raw: Seq<char>) -> Result<u32, Failure> {
    match numbers::integer(raw, 0, u32::MAX as int) {
        Ok(value) => Ok(value as u32),
        Err(error) => Err(values::bad_value(key, raw, error.text())),
    }
}

fn read_u32_value(key: &str, raw: &str) -> (result: Result<u32, CompositorError>)
    ensures
        errors::outcome(result) == u32_value(key@, raw@),
{
    match read_u32(raw) {
        Ok(value) => Ok(value),
        Err(error) => Err(bad_value_error(key, raw, error.reason())),
    }
}

/// The `u32` under `key`, or `default` where the key is missing.
pub fn parse_u32(values: &Values, key: &str, default: u32) -> (result: Result<u32, CompositorError>)
    ensures
        errors::outcome(result) == (match values::lookup(values@, key@) {
            Some(raw) => u32_value(key@, raw),
            None => Ok(default),
        }),
{
    match values.get(key) {
        Some(raw) => read_u32_value(key, raw.as_str()),
        None => Ok(default),
    }
}

/// The `u32` under `key`, where the key is there.
pub fn parse_optional_u32(values: &Values, key: &str) -> (result: Result<
    Option<u32>,
    CompositorError,
>)
    ensures
        errors::outcome(result) == (match values::lookup(values@, key@) {
            Some(raw) => match u32_value(key@, raw) {
                Ok(value) => Ok(Some(value)),
                Err(failure) => Err(failure),
            },
            None => Ok(None),
        }),
{
    match values.get(key) {
        Some(raw) => match read_u32_value(key, raw.as_str()) {
            Ok(value) => Ok(Some(value)),
            Err(error) => Err(error),
        },
        None => Ok(None),
    }
}

/// The `i32` that `raw` writes.
pub open spec fn i32_value(key: Seq<char>, raw: Seq<char>) -> Result<i32, Failure> {
    match numbers::integer(raw, i32::MIN as int, i32::MAX as int) {
        Ok(value) => Ok(value as i32),
        Err(error) => Err(values::bad_value(key, raw, error.text())),
    }
}

/// The `i32` under `key`, or `default` where the key is missing.
pub fn parse_i32(values: &Values, key: &str, default: i32) -> (result: Result<i32, CompositorError>)
    ensures
        errors::outcome(result) == (match values::lookup(values@, key@) {
            Some(raw) => i32_value(key@, raw),
            None => Ok(default),
        }),
{
    match values.get(key) {
        Some(raw) => match read_i32(raw.as_str()) {
            Ok(value) => Ok(value),
            Err(error) => Err(bad_value_error(key, raw.as_str(), error.reason())),
        },
        None => Ok(default),
    }
}

/// The boolean that `raw` spells out.
pub open spec fn bool_value(key: Seq<char>, raw: Seq<char>) -> Result<bool, Failure> {
    if raw == "true"@ {
        Ok(true)
    } else if raw == "false"@ {
        Ok(false)
    } else {
        Err(values::bad_value(key, raw, "provided string was not `true` or `false`"@))
    }
}

/// The boolean under `key`, spelled `true` or `false`, or `default` where the key is missing.
pub fn parse_bool(values: &Values, key: &str, default: bool) -> (result: Result<
    bool,
    CompositorError,
>)
    ensures
        errors::outcome(result) == (match values::lookup(values@, key@) {
            Some(raw) => bool_value(key@, raw),
            None => Ok(default),
        }),
{
    match values.get(key) {
        Some(raw) => if same_text(raw.as_str(), "true") {
            Ok(true)
        } else if same_text(raw.as_str(), "false") {
            Ok(false)
        } else {
            Err(
                bad_value_error(
                    key,
                    raw.as_str(),
                    "provided string was not `true` or `false`",
                ),
            )
        },
        None => Ok(default),
    }
}

/// The words for true: `true`, `1`, `yes` and `on`.
pub open spec fn affirmative(word: Seq<char>) -> bool {
    word == "true"@ || word == "1"@ || word == "yes"@ || word == "on"@
}

/// The words for false: `false`, `0`, `no` and `off`.
pub open spec fn negative(word: Seq<char>) -> bool {
    word == "false"@ || word == "0"@ || word == "no"@ || word == "off"@
}

/// Whether `word` is one of `true`, `1`, `yes` and `on`.
pub fn is_affirmative(word: &str) -> (result: bool)
    ensures
        result == affirmative(word@),
{
    same_text(word, "true") || same_text(word, "1") || same_text(word, "yes") || same_text(
        word,
        "on",
    )
}

/// Whether `word` is one of `false`, `0`, `no` and `off`.
pub fn is_negative(word: &str) -> (result: bool)
    ensures
        result == negative(word@),
{
    same_text(word, "false") || same_text(word, "0") || same_text(word, "no") || same_text(
        word,
        "off",
    )
}

/// The boolean that a word of either kind says, whatever its case and the white space around it.
pub open spec fn flexible_bool(key: Seq<char>, raw: Seq<char>) -> Result<bool, Failure> {
    let word = text::lowercase(text::trimmed(raw));
    if affirmative(word) {
        Ok(true)
    } else if negative(word) {
        Ok(false)
    } else {
        Err(values::bad_value(key, raw, "expected bool or 0/1"@))
    }
}

/// The words for true and false have nothing in common.
pub proof fn affirmative_is_not_negative(word: Seq<char>)
    ensures
        !(affirmative(word) && negative(word)),
{
    reveal_strlit("true");
    reveal_strlit("1");
    reveal_strlit("yes");
    reveal_strlit("on");
    reveal_strlit("false");
    reveal_strlit("0");
    reveal_strlit("no");
    reveal_strlit("off");
    if affirmative(word) && negative(word) {
        assert(word.len() == 4 || word.len() == 1 || word.len() == 3 || word.len() == 2);
        assert(word[0] == 't' || word[0] == '1' || word[0] == 'y' || word[1] == 'n');
    }
}

fn read_flexible_bool(key: &str, raw: &str) -> (result: Result<bool, CompositorError>)
    ensures
        errors::outcome(result) == flexible_bool(key@, raw@),
{
    let inner = trim(raw);
    let word = to_lowercase(inner.as_str());
    if is_affirmative(word.as_str()) {
        Ok(true)
    } else if is_negative(word.as_str()) {
        Ok(false)
    } else {
        Err(bad_value_error(key, raw, "expected bool or 0/1"))
    }
}

/// The boolean under `key`, or `default` where the key is missing.
pub fn parse_bool_flexible(values: &Values, key: &str, default: bool) -> (result: Result<
    bool,
    CompositorError,
>)
    ensures
        errors::outcome(result) == (match values::lookup(values@, key@) {
            Some(raw) => flexible_bool(key@, raw),
            None => Ok(default),
        }),
{
    match values.get(key) {
        Some(raw) => read_flexible_bool(key, raw.as_str()),
        None => Ok(default),
    }
}

/// The boolean of an optional field; `key` names it in an error.
pub open spec fn optional_bool(fields: Pairs, field: Seq<char>, key: Seq<char>) -> Result<
    Option<bool>,
    Failure,
> {
    match values::lookup(fields, field) {
        Some(raw) => match flexible_bool(key, raw) {
            Ok(value) => Ok(Some(value)),
            Err(failure) => Err(failure),
        },
        None => Ok(None),
    }
}

/// The boolean of an optional field; `key` names it in an error.
pub fn parse_optional_bool_flexible_in_map(fields: &Values, field: &str, key: &str) -> (result:
    Result<Option<bool>, CompositorError>)
    ensures
        errors::outcome(result) == optional_bool(fields@, field@, key@),
{
    match fields.get(field) {
        Some(raw) => match read_flexible_bool(key, raw.as_str()) {
            Ok(value) => Ok(Some(value)),
            Err(error) => Err(error),
        },
        None => Ok(None),
    }
}

/// The `u32` of an optional field, where the field is there and not blank.
pub open spec fn optional_u32(fields: Pairs, field: Seq<char>, key: Seq<char>) -> Result<
    Option<u32>,
    Failure,
> {
    match values::lookup(fields, field) {
        Some(raw) => if text::blank(raw) {
            Ok(None)
        } else {
            match u32_value(key, text::trimmed(raw)) {
                Ok(value) => Ok(Some(value)),
                Err(failure) => Err(failure),
            }
        },
        None => Ok(None),
    }
}

/// The `u32` of an optional field, where the field is there and not blank.
pub fn parse_optional_u32_in_map(fields: &Values, field: &str, key: &str) -> (result: Result<
    Option<u32>,
    CompositorError,
>)
    ensures
        errors::outcome(result) == optional_u32(fields@, field@, key@),
{
    match fields.get(field) {
        Some(raw) => {
            let inner = trim(raw.as_str());
            if inner.as_str().is_empty() {
                return Ok(None);
            }
            match read_u32_value(key, inner.as_str()) {
                Ok(value) => Ok(Some(value)),
                Err(error) => Err(error),
            }
        },
        None => Ok(None),
    }
}

/// The integer between `low` and `high` that `raw` writes as an integer or as a whole floating
/// point number; `wanted` says in an error what was expected.
pub open spec fn flexible_integer(
    key: Seq<char>,
    raw: Seq<char>,
    low: int,
    high: int,
    wanted: Seq<char>,
    double: Double,
) -> Result<int, Failure> {
    match numbers::integer(raw, low, high) {
        Ok(value) => Ok(value),
        Err(_) => match double {
            Double::Invalid(reason) => Err(values::bad_value(key, raw, reason)),
            Double::Finite(_, Some(whole)) if low <= whole <= high => Ok(whole as int),
            _ => Err(values::bad_value(key, raw, wanted)),
        },
    }
}

/// The failure or the value of a `flexible_integer`, as a `u16`.
pub open spec fn u16_value(key: Seq<char>, raw: Seq<char>, double: Double) -> Result<u16, Failure> {
    match flexible_integer(
        key,
        raw,
        0,
        u16::MAX as int,
        "expected non-negative integer <= 65535"@,
        double,
    ) {
        Ok(value) => Ok(value as u16),
        Err(failure) => Err(failure),
    }
}

/// The `u16` that `raw` writes as an integer or as a whole floating point number.
pub fn parse_u16_flexible(raw: &str, key: &str, readings: &Readings) -> (result: Result<
    u16,
    CompositorError,
>)
    ensures
        errors::outcome(result) == u16_value(key@, raw@, floats::double_of(readings@, raw@)),
{
    if let Ok(value) = read_u16(raw) {
        return Ok(value);
    }
    match readings.double(raw) {
        DoubleReading::Invalid(reason) => Err(bad_value_error(key, raw, reason.as_str())),
        DoubleReading::Finite(_, Some(whole)) => if 0 <= whole && whole <= 65535 {
            Ok(whole as u16)
        } else {
            Err(bad_value_error(key, raw, "expected non-negative integer <= 65535"))
        },
        _ => Err(bad_value_error(key, raw, "expected non-negative integer <= 65535")),
    }
}

/// The failure or the value of a `flexible_integer`, as an `i32`.
pub open spec fn flexible_i32(key: Seq<char>, raw: Seq<char>, double: Double) -> Result<
    i32,
    Failure,
> {
    match flexible_integer(
        key,
        raw,
        i32::MIN as int,
        i32::MAX as int,
        "expected integer"@,
        double,
    ) {
        Ok(value) => Ok(value as i32),
        Err(failure) => Err(failure),
    }
}

/// The `i32` that `raw` writes as an integer or as a whole floating point number.
pub fn parse_i32_flexible(raw: &str, key: &str, readings: &Readings) -> (result: Result<
    i32,
    CompositorError,
>)
    ensures
        errors::outcome(result) == flexible_i32(key@, raw@, floats::double_of(readings@, raw@)),
{
    if let Ok(value) = read_i32(raw) {
        return Ok(value);
    }
    match readings.double(raw) {
        DoubleReading::Invalid(reason) => Err(bad_value_error(key, raw, reason.as_str())),
        DoubleReading::Finite(_, Some(whole)) => if i32::MIN as i64 <= whole && whole
            <= i32::MAX as i64 {
            Ok(whole as i32)
        } else {
            Err(bad_value_error(key, raw, "expected integer"))
        },
        _ => Err(bad_value_error(key, raw, "expected integer")),
    }
}

/// The `u16` of an optional field.
pub open spec fn optional_u16(
    fields: Pairs,
    field: Seq<char>,
    key: Seq<char>,
    readings: Seq<(Seq<char>, Double, Single)>,
) -> Result<Option<u16>, Failure> {
    match values::lookup(fields, field) {
        Some(raw) => match u16_value(key, raw, floats::double_of(readings, raw)) {
            Ok(value) => Ok(Some(value)),
            Err(failure) => Err(failure),
        },
        None => Ok(None),
    }
}

/// The `u16` of an optional field.
pub fn parse_optional_u16_flexible_in_map(
    fields: &Values,
    field: &str,
    key: &str,
    readings: &Readings,
) -> (result: Result<Option<u16>, CompositorError>)
    ensures
        errors::outcome(result) == optional_u16(fields@, field@, key@, readings@),
{
    match fields.get(field) {
        Some(raw) => match parse_u16_flexible(raw.as_str(), key, readings) {
            Ok(value) => Ok(Some(value)),
            Err(error) => Err(error),
        },
        None => Ok(None),
    }
}

/// The `i32` of an optional field.
pub open spec fn optional_i32(
    fields: Pairs,
    field: Seq<char>,
    key: Seq<char>,
    readings: Seq<(Seq<char>, Double, Single)>,
) -> Result<Option<i32>, Failure> {
    match values::lookup(fields, field) {
        Some(raw) => match flexible_i32(key, raw, floats::double_of(readings, raw)) {
            Ok(value) => Ok(Some(value)),
            Err(failure) => Err(failure),
        },
        None => Ok(None),
    }
}

/// The `i32` of an optional field.
pub fn parse_optional_i32_flexible_in_map(
    fields: &Values,
    field: &str,
    key: &str,
    readings: &Readings,
) -> (result: Result<Option<i32>, CompositorError>)
    ensures
        errors::outcome(result) == optional_i32(fields@, field@, key@, readings@),
{
    match fields.get(field) {
        Some(raw) => match parse_i32_flexible(raw.as_str(), key, readings) {
            Ok(value) => Ok(Some(value)),
            Err(error) => Err(error),
        },
        None => Ok(None),
    }
}

/// A text that was read as a floating point number, with the side of zero it lies on.
pub type Measure = (Seq<char>, Sign);

/// The floating point number of an optional field, which has to be finite.
pub open spec fn optional_double(
    fields: Pairs,
    field: Seq<char>,
    key: Seq<char>,
    readings: Seq<(Seq<char>, Double, Single)>,
) -> Result<Option<Measure>, Failure> {
    match values::lookup(fields, field) {
        Some(raw) => match floats::double_of(readings, raw) {
            Double::Invalid(reason) => Err(values::bad_value(key, raw, reason)),
            Double::NotFinite => Err(values::bad_value(key, raw, "must be finite"@)),
            Double::Finite(sign, _) => Ok(Some((raw, sign))),
        },
        None => Ok(None),
    }
}

/// A `Measure`, or a failure, as text.
pub open spec fn measure_outcome(result: Result<Option<(String, Sign)>, CompositorError>) -> Result<
    Option<Measure>,
    Failure,
> {
    match result {
        Ok(Some(found)) => Ok(Some((found.0@, found.1))),
        Ok(None) => Ok(None),
        Err(error) => Err(error@),
    }
}

/// The floating point number of an optional field, which has to be finite: its text and its sign.
pub fn parse_optional_f64_in_map(fields: &Values, field: &str, key: &str, readings: &Readings) -> (result:
    Result<Option<(String, Sign)>, CompositorError>)
    ensures
        measure_outcome(result) == optional_double(fields@, field@, key@, readings@),
{
    match fields.get(field) {
        Some(raw) => match readings.double(raw.as_str()) {
            DoubleReading::Invalid(reason) => Err(
                bad_value_error(key, raw.as_str(), reason.as_str()),
            ),
            DoubleReading::NotFinite => Err(bad_value_error(key, raw.as_str(), "must be finite")),
            DoubleReading::Finite(sign, _) => Ok(Some((raw.clone(), sign))),
        },
        None => Ok(None),
    }
}

/// The single precision number that `raw` writes, as its text with what is known of it.
pub open spec fn single_value(key: Seq<char>, raw: Seq<char>, single: Single) -> Result<
    (bool, bool),
    Failure,
> {
    match single {
        Single::Invalid(reason) => Err(values::bad_value(key, raw, reason)),
        Single::Value(inside, below) => Ok((inside, below)),
    }
}

/// The single precision number under `key`, where the key is there: its text, whether it lies
/// between 0.1 and 0.9, and whether below zero.
pub fn parse_f32(values: &Values, key: &str, readings: &Readings) -> (result: Result<
    Option<(String, bool, bool)>,
    CompositorError,
>)
    ensures
        match values::lookup(values@, key@) {
            Some(raw) => match single_value(key@, raw, floats::single_of(readings@, raw)) {
                Ok(known) => result matches Ok(Some(found)) && found.0@ == raw && found.1 == known.0
                    && found.2 == known.1,
                Err(failure) => result matches Err(error) && error@ == failure,
            },
            None => result matches Ok(None),
        },
{
    match values.get(key) {
        Some(raw) => match readings.single(raw.as_str()) {
            SingleReading::Invalid(reason) => Err(
                bad_value_error(key, raw.as_str(), reason.as_str()),
            ),
            SingleReading::Value(inside, below) => Ok(Some((raw.clone(), inside, below))),
        },
        None => Ok(None),
    }
}

} // verus!
