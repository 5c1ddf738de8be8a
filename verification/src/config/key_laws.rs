//! Laws of what keys and modes are called.

use crate::config::floats;
use crate::config::keybinds;
use crate::config::monitors;
use crate::config::monitors::{Mode, Table};
use crate::errors::Failure;
use crate::numbers;
use crate::text;
use vstd::prelude::*;

verus! {

proof fn names_are_apart()
    ensures
        "RETURN"@.len() == 6,
        "ESCAPE"@.len() == 6,
        "PRINT"@.len() == 5,
        "SPACE"@.len() == 5,
        "TAB"@.len() == 3,
        "LEFT"@.len() == 4,
        "RIGHT"@.len() == 5,
        "UP"@.len() == 2,
        "DOWN"@.len() == 4,
        "BACKSPACE"@.len() == 9,
        "RETURN"@ != "ESCAPE"@,
        "PRINT"@ != "SPACE"@,
        "PRINT"@ != "RIGHT"@,
        "SPACE"@ != "RIGHT"@,
        "LEFT"@ != "DOWN"@,
{
    reveal_strlit("RETURN");
    reveal_strlit("ESCAPE");
    reveal_strlit("PRINT");
    reveal_strlit("SPACE");
    reveal_strlit("TAB");
    reveal_strlit("LEFT");
    reveal_strlit("RIGHT");
    reveal_strlit("UP");
    reveal_strlit("DOWN");
    reveal_strlit("BACKSPACE");
    assert("RETURN"@[0] == 'R' && "ESCAPE"@[0] == 'E');
    assert("PRINT"@[0] == 'P' && "SPACE"@[0] == 'S' && "RIGHT"@[0] == 'R');
    assert("LEFT"@[0] == 'L' && "DOWN"@[0] == 'D');
}

/// The symbols of the arrow keys stand in a row, in the order left, up, right, down, and each arrow has
/// one key, whatever it writes.
pub proof fn arrows_stand_in_a_row(keysym: u32, ch: Option<char>)
    requires
        keysym < u32::MAX,
    ensures
        keybinds::token_names("LEFT"@, keysym, ch) == keybinds::token_names(
            "UP"@,
            (keysym + 1) as u32,
            ch,
        ),
        keybinds::token_names("UP"@, keysym, ch) == keybinds::token_names(
            "RIGHT"@,
            (keysym + 1) as u32,
            ch,
        ),
        keybinds::token_names("RIGHT"@, keysym, ch) == keybinds::token_names(
            "DOWN"@,
            (keysym + 1) as u32,
            ch,
        ),
{
    names_are_apart();
}

/// No key has two names: where two names of keys that write nothing mean the same key, they are one.
pub proof fn named_keys_differ(one: Seq<char>, other: Seq<char>, keysym: u32)
    requires
        keybinds::token_names(one, keysym, None),
        keybinds::token_names(other, keysym, None),
        one.len() > 1,
        other.len() > 1,
    ensures
        one == other,
{
    names_are_apart();
}

/// A letter means the key that writes it, large or small, and no other.
pub proof fn letter_means_its_key(letter: char, keysym: u32, found: char)
    requires
        'a' <= letter <= 'z',
    ensures
        keybinds::token_names(seq![letter], keysym, Some(found)) <==> found == letter
            || found as int == letter as int - 32,
        keybinds::token_names(seq![(letter as u32 - 32) as char], keysym, Some(found))
            <==> keybinds::token_names(seq![letter], keysym, Some(found)),
{
    assert(text::ascii_letter(letter));
    assert(text::ascii_letter((letter as u32 - 32) as char));
}

/// A digit means the key with its number, and no key is that of two digits.
pub proof fn digit_means_its_key(digit: char, other: char, keysym: u32, ch: Option<char>)
    requires
        '0' <= digit <= '9',
        '0' <= other <= '9',
    ensures
        keybinds::token_names(seq![digit], digit as u32, ch),
        keybinds::token_names(seq![digit], keysym, ch) && keybinds::token_names(
            seq![other],
            keysym,
            ch,
        ) ==> digit == other,
{
    assert(text::ascii_digit(digit));
    assert(text::ascii_digit(other));
}

proof fn digits_are_plain(value: nat)
    requires
        value <= u16::MAX,
    ensures
        numbers::decimal(value).len() > 0,
        text::trimmed(numbers::decimal(value)) == numbers::decimal(value),
        numbers::integer(numbers::decimal(value), 0, u16::MAX as int) == Ok::<
            int,
            numbers::IntError,
        >(value as int),
        forall|i: int|
            0 <= i < numbers::decimal(value).len() ==> '0' <= #[trigger] numbers::decimal(value)[i]
                <= '9',
{
    let digits = numbers::decimal(value);
    numbers::unsigned_round_trip(value, u16::MAX as int);
    numbers::decimal_reads_back(value, u16::MAX as int);
    assert(text::ascii_digit(digits[0]));
    assert(text::ascii_digit(digits[digits.len() - 1]));
    text::dark_ends_are_trimmed(digits);
}

/// A mode is read as it is written: first its width, then an `x`, then its height.
pub proof fn mode_goes_by_its_size(width: u16, height: u16, key: Seq<char>, readings: Table)
    ensures
        monitors::mode_value(
            numbers::decimal(width as nat) + seq!['x'] + numbers::decimal(height as nat),
            key,
            readings,
        ) == Ok::<Mode, Failure>((width, height, None)),
{
    let wide = numbers::decimal(width as nat);
    let high = numbers::decimal(height as nat);
    let raw = wide + seq!['x'] + high;
    digits_are_plain(width as nat);
    digits_are_plain(height as nat);
    assert(raw[0] == wide[0]);
    assert(raw.last() == high[high.len() - 1]);
    text::dark_ends_are_trimmed(raw);
    assert forall|i: int| 0 <= i < raw.len() implies raw[i] != '@' by {
        if i < wide.len() {
            assert(raw[i] == wide[i]);
        } else if i > wide.len() {
            assert(raw[i] == high[i - wide.len() - 1]);
        }
    }
    text::first_mark_is_first(raw, '@', raw.len() as int);
    assert(floats::mode_split(raw) == (raw, None::<Seq<char>>));
    assert forall|i: int| 0 <= i < wide.len() implies raw[i] != 'x' by {
        assert(raw[i] == wide[i]);
    }
    text::first_mark_is_first(raw, 'x', wide.len() as int);
    assert(raw.take(wide.len() as int) =~= wide);
    assert(raw.skip((wide.len() + 1) as int) =~= high);
    assert(floats::size_split(raw) == Some((wide, high)));
}

} // verus!
