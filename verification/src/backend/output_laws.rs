//! Laws of outputs: a new output is set to what its configuration says.

use crate::backend::outputs;
use crate::backend::outputs::{ModeInfo, Transform};
use crate::config::action_laws;
use crate::config::monitors::Monitor;
use crate::state::space::Output;
use crate::text;
use vstd::prelude::*;

verus! {

proof fn first_monitor_counts(found: Seq<Monitor>, name: Seq<char>, at: int)
    requires
        0 <= at < found.len(),
        outputs::names_output(found[at].name, name),
        forall|i: int| 0 <= i < at ==> !outputs::names_output((#[trigger] found[i]).name, name),
    ensures
        outputs::monitor_for(found, name) == Some(found[at]),
    decreases at,
{
    if at > 0 {
        let rest = found.skip(1);
        assert(rest[at - 1] == found[at]);
        assert(!outputs::names_output(found[0].name, name));
        assert forall|i: int| 0 <= i < at - 1 implies !outputs::names_output(
            (#[trigger] rest[i]).name,
            name,
        ) by {
            assert(rest[i] == found[i + 1]);
        }
        first_monitor_counts(rest, name, at - 1);
    }
}

proof fn no_monitor_counts(found: Seq<Monitor>, name: Seq<char>)
    requires
        forall|i: int|
            0 <= i < found.len() ==> !outputs::names_output((#[trigger] found[i]).name, name),
    ensures
        outputs::monitor_for(found, name) is None,
    decreases found.len(),
{
    if found.len() > 0 {
        let rest = found.skip(1);
        assert(!outputs::names_output(found[0].name, name));
        assert forall|i: int| 0 <= i < rest.len() implies !outputs::names_output(
            (#[trigger] rest[i]).name,
            name,
        ) by {
            assert(rest[i] == found[i + 1]);
        }
        no_monitor_counts(rest, name);
    }
}

/// A new output is put where the first configuration that means it says, with the scale that it says;
/// one that is disabled stays off beside others.
pub proof fn output_goes_by_its_monitor(
    found: Seq<Monitor>,
    others: Seq<Output>,
    name: Seq<char>,
    modes: Seq<ModeInfo>,
    at: int,
)
    requires
        0 <= at < found.len(),
        outputs::names_output(found[at].name, name),
        forall|i: int| 0 <= i < at ==> !outputs::names_output((#[trigger] found[i]).name, name),
    ensures
        ({
            let monitor = found[at];
            let plan = outputs::plan_for(found, others, name, modes);
            &&& plan is None <==> !monitor.enabled && others.len() > 0
            &&& plan is Some && monitor.x is Some ==> Some(plan.unwrap().x) == monitor.x
            &&& plan is Some && monitor.y is Some ==> Some(plan.unwrap().y) == monitor.y
            &&& plan is Some && monitor.y is None ==> plan.unwrap().y == 0
            &&& plan is Some && monitor.x is None && others.len() == 0 ==> plan.unwrap().x == 0
            &&& plan is Some ==> plan.unwrap().scale == monitor.scale
            &&& plan is Some && monitor.transform is None ==> plan.unwrap().transform
                == Transform::Normal
        }),
{
    first_monitor_counts(found, name, at);
}

/// A new output that no configuration means is not turned and not scaled, and stands to the right of
/// the others: as far as they are wide together.
pub proof fn unknown_output_goes_right(
    found: Seq<Monitor>,
    others: Seq<Output>,
    output: Output,
    name: Seq<char>,
    modes: Seq<ModeInfo>,
)
    requires
        forall|i: int|
            0 <= i < found.len() ==> !outputs::names_output((#[trigger] found[i]).name, name),
    ensures
        ({
            let plan = outputs::plan_for(found, others, name, modes);
            let more = outputs::plan_for(found, others.push(output), name, modes);
            &&& plan is Some
            &&& plan.unwrap().y == 0
            &&& plan.unwrap().transform == Transform::Normal
            &&& plan.unwrap().scale is None
            &&& others.len() == 0 ==> plan.unwrap().x == 0
            &&& output.geometry is Some && i32::MIN <= plan.unwrap().x
                + output.geometry.unwrap().size.w <= i32::MAX ==> more.unwrap().x
                == plan.unwrap().x + output.geometry.unwrap().size.w
            &&& output.geometry is None ==> more.unwrap().x == plan.unwrap().x
        }),
{
    no_monitor_counts(found, name);
    assert(others.push(output).drop_last() =~= others);
}

/// Where a mode of the size that is asked for is offered, the chosen mode has that size, and no other
/// one of that size has a refresh rate closer to what is asked for.
pub proof fn asked_size_is_chosen(modes: Seq<ModeInfo>, monitor: Monitor, at: int)
    requires
        0 <= at < modes.len(),
        monitor.width == Some(modes[at].width),
        monitor.height == Some(modes[at].height),
    ensures
        ({
            let chosen = outputs::chosen_mode(modes, Some(monitor));
            &&& 0 <= chosen < modes.len()
            &&& monitor.width == Some(modes[chosen].width)
            &&& monitor.height == Some(modes[chosen].height)
            &&& modes[chosen].refresh_diff <= modes[at].refresh_diff
        }),
{
    outputs::best_mode_is_best(modes, outputs::asked_size(monitor), modes.len());
}

/// Where nothing is asked for and a mode is preferred, the chosen mode is a preferred one.
pub proof fn preferred_mode_is_chosen(modes: Seq<ModeInfo>, monitor: Option<Monitor>, at: int)
    requires
        0 <= at < modes.len(),
        modes[at].preferred,
        monitor is Some ==> monitor.unwrap().width is None && monitor.unwrap().height is None
            && monitor.unwrap().refresh_hz is None,
    ensures
        ({
            let chosen = outputs::chosen_mode(modes, monitor);
            0 <= chosen <= at && modes[chosen].preferred
        }),
{
    preferred_is_found(modes, 0, at);
}

proof fn preferred_is_found(modes: Seq<ModeInfo>, from: int, at: int)
    requires
        0 <= from <= at < modes.len(),
        modes[at].preferred,
    ensures
        from <= outputs::preferred_from(modes, from) <= at,
        modes[outputs::preferred_from(modes, from)].preferred,
    decreases at - from,
{
    if !modes[from].preferred {
        preferred_is_found(modes, from + 1, at);
    }
}

/// The words that name a turn of an output.
pub open spec fn is_turn(word: Seq<char>) -> bool {
    ||| word == "normal"@
    ||| word == "0"@
    ||| word == "90"@
    ||| word == "_90"@
    ||| word == "rotate90"@
    ||| word == "180"@
    ||| word == "_180"@
    ||| word == "rotate180"@
    ||| word == "270"@
    ||| word == "_270"@
    ||| word == "rotate270"@
    ||| word == "flipped"@
    ||| word == "flip"@
    ||| word == "4"@
    ||| word == "flipped90"@
    ||| word == "flipped-90"@
    ||| word == "flip90"@
    ||| word == "5"@
    ||| word == "flipped180"@
    ||| word == "flipped-180"@
    ||| word == "flip180"@
    ||| word == "6"@
    ||| word == "flipped270"@
    ||| word == "flipped-270"@
    ||| word == "flip270"@
    ||| word == "7"@
}

/// Whether a word is written with small letters, digits and strokes.
pub open spec fn is_plain(word: Seq<char>) -> bool {
    word.len() > 0 && forall|i: int|
        0 <= i < word.len() ==> 'a' <= #[trigger] word[i] <= 'z' || '0' <= word[i] <= '9' || word[i]
            == '-' || word[i] == '_'
}

proof fn turns_are_named()
    ensures
        outputs::named_transform("normal"@) == Some(Transform::Normal),
        outputs::named_transform("0"@) == Some(Transform::Normal),
        outputs::named_transform("90"@) == Some(Transform::Rotated90),
        outputs::named_transform("_90"@) == Some(Transform::Rotated90),
        outputs::named_transform("rotate90"@) == Some(Transform::Rotated90),
        outputs::named_transform("180"@) == Some(Transform::Rotated180),
        outputs::named_transform("_180"@) == Some(Transform::Rotated180),
        outputs::named_transform("rotate180"@) == Some(Transform::Rotated180),
        outputs::named_transform("270"@) == Some(Transform::Rotated270),
        outputs::named_transform("_270"@) == Some(Transform::Rotated270),
        outputs::named_transform("rotate270"@) == Some(Transform::Rotated270),
        outputs::named_transform("flipped"@) == Some(Transform::Flipped),
        outputs::named_transform("flip"@) == Some(Transform::Flipped),
        outputs::named_transform("4"@) == Some(Transform::Flipped),
        outputs::named_transform("flipped90"@) == Some(Transform::Flipped90),
        outputs::named_transform("flipped-90"@) == Some(Transform::Flipped90),
        outputs::named_transform("flip90"@) == Some(Transform::Flipped90),
        outputs::named_transform("5"@) == Some(Transform::Flipped90),
        outputs::named_transform("flipped180"@) == Some(Transform::Flipped180),
        outputs::named_transform("flipped-180"@) == Some(Transform::Flipped180),
        outputs::named_transform("flip180"@) == Some(Transform::Flipped180),
        outputs::named_transform("6"@) == Some(Transform::Flipped180),
        outputs::named_transform("flipped270"@) == Some(Transform::Flipped270),
        outputs::named_transform("flipped-270"@) == Some(Transform::Flipped270),
        outputs::named_transform("flip270"@) == Some(Transform::Flipped270),
        outputs::named_transform("7"@) == Some(Transform::Flipped270),
        forall|word: Seq<char>| #[trigger] is_turn(word) ==> is_plain(word),
{
    reveal_strlit("normal");
    reveal_strlit("0");
    reveal_strlit("90");
    reveal_strlit("_90");
    reveal_strlit("rotate90");
    reveal_strlit("180");
    reveal_strlit("_180");
    reveal_strlit("rotate180");
    reveal_strlit("270");
    reveal_strlit("_270");
    reveal_strlit("rotate270");
    reveal_strlit("flipped");
    reveal_strlit("flip");
    reveal_strlit("4");
    reveal_strlit("flipped90");
    reveal_strlit("flipped-90");
    reveal_strlit("flip90");
    reveal_strlit("5");
    reveal_strlit("flipped180");
    reveal_strlit("flipped-180");
    reveal_strlit("flip180");
    reveal_strlit("6");
    reveal_strlit("flipped270");
    reveal_strlit("flipped-270");
    reveal_strlit("flip270");
    reveal_strlit("7");
    assert("normal"@.len() == 6);
    assert("0"@.len() == 1);
    assert("90"@.len() == 2);
    assert("_90"@.len() == 3);
    assert("rotate90"@.len() == 8);
    assert("180"@.len() == 3);
    assert("_180"@.len() == 4);
    assert("rotate180"@.len() == 9);
    assert("270"@.len() == 3);
    assert("_270"@.len() == 4);
    assert("rotate270"@.len() == 9);
    assert("flipped"@.len() == 7);
    assert("flip"@.len() == 4);
    assert("4"@.len() == 1);
    assert("flipped90"@.len() == 9);
    assert("flipped-90"@.len() == 10);
    assert("flip90"@.len() == 6);
    assert("5"@.len() == 1);
    assert("flipped180"@.len() == 10);
    assert("flipped-180"@.len() == 11);
    assert("flip180"@.len() == 7);
    assert("6"@.len() == 1);
    assert("flipped270"@.len() == 10);
    assert("flipped-270"@.len() == 11);
    assert("flip270"@.len() == 7);
    assert("7"@.len() == 1);
    assert("normal"@[0] != "flip90"@[0]);
    assert("0"@[0] != "4"@[0]);
    assert("0"@[0] != "5"@[0]);
    assert("0"@[0] != "6"@[0]);
    assert("0"@[0] != "7"@[0]);
    assert("_90"@[0] != "180"@[0]);
    assert("_90"@[0] != "270"@[0]);
    assert("180"@[0] != "270"@[0]);
    assert("_180"@[1] != "_270"@[1]);
    assert("_180"@[0] != "flip"@[0]);
    assert("rotate180"@[6] != "rotate270"@[6]);
    assert("rotate180"@[0] != "flipped90"@[0]);
    assert("_270"@[0] != "flip"@[0]);
    assert("rotate270"@[0] != "flipped90"@[0]);
    assert("flipped"@[4] != "flip180"@[4]);
    assert("flipped"@[4] != "flip270"@[4]);
    assert("4"@[0] != "5"@[0]);
    assert("4"@[0] != "6"@[0]);
    assert("4"@[0] != "7"@[0]);
    assert("flipped-90"@[7] != "flipped180"@[7]);
    assert("flipped-90"@[7] != "flipped270"@[7]);
    assert("5"@[0] != "6"@[0]);
    assert("5"@[0] != "7"@[0]);
    assert("flipped180"@[7] != "flipped270"@[7]);
    assert("flipped-180"@[8] != "flipped-270"@[8]);
    assert("flip180"@[4] != "flip270"@[4]);
    assert("6"@[0] != "7"@[0]);
}

proof fn plain_is_lowered(name: Seq<char>, word: Seq<char>)
    requires
        action_laws::spells(name, word),
        is_plain(word),
    ensures
        text::lowercase(text::trimmed(name)) == word,
{
    assert forall|i: int| 0 <= i < word.len() implies text::lowercase(name)[i] == word[i] by {
        assert(name[i] == word[i] || ('a' <= word[i] <= 'z' && name[i] as int == word[i] as int
            - 32));
        assert('a' <= word[i] <= 'z' || '0' <= word[i] <= '9' || word[i] == '-' || word[i] == '_');
    }
    assert(text::lowercase(name) =~= word);
    let last = name.len() - 1;
    assert(name[0] == word[0] || ('a' <= word[0] <= 'z' && name[0] as int == word[0] as int - 32));
    assert('a' <= word[0] <= 'z' || '0' <= word[0] <= '9' || word[0] == '-' || word[0] == '_');
    assert(name[last] == word[last] || ('a' <= word[last] <= 'z' && name[last] as int
        == word[last] as int - 32));
    assert('a' <= word[last] <= 'z' || '0' <= word[last] <= '9' || word[last] == '-' || word[last]
        == '_');
    text::dark_ends_are_trimmed(name);
}

/// Every turn of an output goes by its own names, in letters of any case.
pub proof fn turn_goes_by_its_name(name: Seq<char>, word: Seq<char>)
    requires
        is_turn(word),
        action_laws::spells(name, word),
    ensures
        ({
            &&& word == "normal"@ || word == "0"@ ==> outputs::configured_transform(Some(name))
                == Transform::Normal
            &&& word == "90"@ || word == "_90"@ || word == "rotate90"@ ==> outputs::configured_transform(Some(name))
                == Transform::Rotated90
            &&& word == "180"@ || word == "_180"@ || word == "rotate180"@ ==> outputs::configured_transform(Some(name))
                == Transform::Rotated180
            &&& word == "270"@ || word == "_270"@ || word == "rotate270"@ ==> outputs::configured_transform(Some(name))
                == Transform::Rotated270
            &&& word == "flipped"@ || word == "flip"@ || word == "4"@ ==> outputs::configured_transform(Some(name))
                == Transform::Flipped
            &&& word == "flipped90"@ || word == "flipped-90"@ || word == "flip90"@ || word == "5"@ ==> outputs::configured_transform(Some(name))
                == Transform::Flipped90
            &&& word == "flipped180"@ || word == "flipped-180"@ || word == "flip180"@ || word == "6"@ ==> outputs::configured_transform(Some(name))
                == Transform::Flipped180
            &&& word == "flipped270"@ || word == "flipped-270"@ || word == "flip270"@ || word == "7"@ ==> outputs::configured_transform(Some(name))
                == Transform::Flipped270
        }),
{
    turns_are_named();
    plain_is_lowered(name, word);
}

proof fn segments_are(first: Seq<char>, rest: Seq<char>, mark: char)
    requires
        !first.contains(mark),
    ensures
        text::segments(first + seq![mark] + rest, mark) == seq![first] + text::segments(rest, mark),
        text::segments(first, mark) == seq![first],
{
    let whole = first + seq![mark] + rest;
    let at = first.len() as int;
    assert forall|i: int| 0 <= i < at implies whole[i] != mark && first[i] != mark by {
        assert(whole[i] == first[i]);
        assert(first.contains(first[i]));
    }
    assert(whole[at] == mark);
    text::first_mark_is_first(whole, mark, at);
    text::first_mark_is_first(first, mark, at);
    assert(whole.take(at) =~= first);
    assert(whole.skip(at + 1) =~= rest);
}

/// An output is meant with or without the letter of its connector before the number, and in letters of
/// any case.
pub proof fn connector_letter_may_be_left_out(base: Seq<char>, letter: char, number: Seq<char>)
    requires
        base.len() > 0,
        forall|i: int|
            0 <= i < base.len() ==> #[trigger] base[i] != '-' && !text::white_space(base[i]),
        text::ascii_letter(letter),
        number.len() > 0,
        outputs::all_digits(number),
    ensures
        ({
            let long = base + seq!['-', letter, '-'] + number;
            let short = base + seq!['-'] + number;
            outputs::names_output(long, short) && outputs::names_output(short, long)
                && outputs::names_output(text::lowercase(long), short)
        }),
{
    let long = base + seq!['-', letter, '-'] + number;
    let short = base + seq!['-'] + number;
    short_name_is(base, letter, number);
    assert(text::ascii_digit(number[number.len() - 1]));
    assert(long[0] == base[0]);
    let small = text::lowercase(base);
    assert forall|i: int| 0 <= i < small.len() implies #[trigger] small[i] != '-'
        && !text::white_space(small[i]) by {
        assert(base[i] != '-');
    }
    short_name_is(small, text::lowered(letter), number);
    assert forall|i: int| 0 <= i < number.len() implies text::lowered(number[i]) == number[i] by {
        assert(text::ascii_digit(number[i]));
    }
    assert(text::lowercase(long) =~= small + seq!['-', text::lowered(letter), '-'] + number);
    assert forall|i: int| 0 <= i < base.len() implies text::raised(text::lowered(base[i]))
        == text::raised(base[i]) by {}
    assert(text::uppercase(small) =~= text::uppercase(base));
}

proof fn short_name_is(base: Seq<char>, letter: char, number: Seq<char>)
    requires
        base.len() > 0,
        forall|i: int|
            0 <= i < base.len() ==> #[trigger] base[i] != '-' && !text::white_space(base[i]),
        text::ascii_letter(letter),
        number.len() > 0,
        outputs::all_digits(number),
    ensures
        outputs::canonical_name(base + seq!['-', letter, '-'] + number) == text::joined(
            seq![text::uppercase(base), number],
            "-"@,
        ),
        outputs::canonical_name(base + seq!['-'] + number) == text::joined(
            seq![text::uppercase(base), number],
            "-"@,
        ),
{
    let long = base + seq!['-', letter, '-'] + number;
    let short = base + seq!['-'] + number;
    assert(text::ascii_digit(number[number.len() - 1]));
    assert(base[0] != '-');
    assert(long[0] == base[0] && short[0] == base[0]);
    assert(long.last() == number[number.len() - 1] && short.last() == number[number.len() - 1]);
    text::dark_ends_are_trimmed(long);
    text::dark_ends_are_trimmed(short);
    let large = text::uppercase(base);
    assert forall|i: int| 0 <= i < number.len() implies text::raised(number[i]) == number[i]
        && number[i] != '-' by {
        assert(text::ascii_digit(number[i]));
    }
    let tall = text::raised(letter);
    assert(text::uppercase(long) =~= large + seq!['-'] + (seq![tall] + seq!['-'] + number));
    assert(text::uppercase(short) =~= large + seq!['-'] + number);
    assert(!large.contains('-')) by {
        if large.contains('-') {
            let k = choose|k: int| 0 <= k < large.len() && large[k] == '-';
            assert(base[k] != '-');
            assert(large[k] == text::raised(base[k]));
        }
    }
    assert(!seq![tall].contains('-')) by {
        assert(seq![tall][0] == tall);
    }
    segments_are(large, seq![tall] + seq!['-'] + number, '-');
    segments_are(seq![tall], number, '-');
    segments_are(large, number, '-');
    segments_are(number, number, '-');
    let parts = text::segments(text::uppercase(long), '-');
    assert(parts =~= seq![large, seq![tall], number]);
    assert(parts.remove(1) =~= seq![large, number]);
    assert(text::segments(text::uppercase(short), '-') =~= seq![large, number]);
    assert(text::ascii_letter(tall));
}

} // verus!
