//! Laws of combos: every modifier goes by its own names, and `Main` by the main key.

use crate::config::action_laws;
use crate::config::keybinds;
use crate::config::keybinds::{KeybindModifiers, MainKey};
use crate::errors::Failure;
use crate::text;
use vstd::prelude::*;

verus! {

/// Whether one of the names is this word, in letters of any case.
pub open spec fn says(names: Seq<Seq<char>>, word: Seq<char>) -> bool {
    exists|i: int| 0 <= i < names.len() && action_laws::spells(#[trigger] names[i], word)
}

/// The words that name a modifier.
pub open spec fn is_modifier_word(word: Seq<char>) -> bool {
    ||| word == "shift"@
    ||| word == "ctrl"@
    ||| word == "control"@
    ||| word == "alt"@
    ||| word == "mod1"@
    ||| word == "super"@
    ||| word == "logo"@
    ||| word == "win"@
    ||| word == "windows"@
    ||| word == "mod4"@
    ||| word == "main"@
}

/// Whether a name is that of a modifier, in letters of any case.
pub open spec fn is_modifier_name(name: Seq<char>) -> bool {
    exists|word: Seq<char>| #[trigger] is_modifier_word(word) && action_laws::spells(name, word)
}

/// Whether modifiers are those that the names say.
pub open spec fn as_said(
    modifiers: KeybindModifiers,
    names: Seq<Seq<char>>,
    main_key: MainKey,
) -> bool {
    &&& modifiers.shift == says(names, "shift"@)
    &&& modifiers.ctrl == (says(names, "ctrl"@) || says(names, "control"@) || (main_key
        == MainKey::Ctrl && says(names, "main"@)))
    &&& modifiers.alt == (says(names, "alt"@) || says(names, "mod1"@) || (main_key == MainKey::Alt
        && says(names, "main"@)))
    &&& modifiers.logo == (says(names, "super"@) || says(names, "logo"@) || says(names, "win"@)
        || says(names, "windows"@) || says(names, "mod4"@) || (main_key == MainKey::Super && says(
        names,
        "main"@,
    )))
}

/// The words that name modifiers are written with small letters and digits, and all differ.
proof fn modifier_words_differ()
    ensures
        forall|word: Seq<char>| #[trigger]
            is_modifier_word(word) ==> word.len() > 1 && word_is_low(word),
        !keybinds::names_ctrl("shift"@) && !keybinds::names_alt("shift"@) && !keybinds::names_super(
            "shift"@,
        ) && "shift"@ != "main"@,
        "ctrl"@ != "shift"@ && "control"@ != "shift"@ && !keybinds::names_alt("ctrl"@)
            && !keybinds::names_alt("control"@) && !keybinds::names_super("ctrl"@)
            && !keybinds::names_super("control"@) && "ctrl"@ != "main"@ && "control"@ != "main"@,
        "alt"@ != "shift"@ && "mod1"@ != "shift"@ && !keybinds::names_ctrl("alt"@)
            && !keybinds::names_ctrl("mod1"@) && !keybinds::names_super("alt"@)
            && !keybinds::names_super("mod1"@) && "alt"@ != "main"@ && "mod1"@ != "main"@,
        !keybinds::names_ctrl("main"@) && !keybinds::names_alt("main"@) && !keybinds::names_super(
            "main"@,
        ),
        forall|word: Seq<char>| #[trigger]
            keybinds::names_super(word) ==> word != "shift"@ && word != "main"@
                && !keybinds::names_ctrl(word) && !keybinds::names_alt(word),
{
    reveal_strlit("shift");
    reveal_strlit("ctrl");
    reveal_strlit("control");
    reveal_strlit("alt");
    reveal_strlit("mod1");
    reveal_strlit("super");
    reveal_strlit("logo");
    reveal_strlit("win");
    reveal_strlit("windows");
    reveal_strlit("mod4");
    reveal_strlit("main");
    assert("shift"@.len() == 5);
    assert("ctrl"@.len() == 4);
    assert("control"@.len() == 7);
    assert("alt"@.len() == 3);
    assert("mod1"@.len() == 4);
    assert("super"@.len() == 5);
    assert("logo"@.len() == 4);
    assert("win"@.len() == 3);
    assert("windows"@.len() == 7);
    assert("mod4"@.len() == 4);
    assert("main"@.len() == 4);
    assert("shift"@[1] != "super"@[1]);
    assert("ctrl"@[0] != "mod1"@[0]);
    assert("ctrl"@[0] != "logo"@[0]);
    assert("ctrl"@[0] != "mod4"@[0]);
    assert("ctrl"@[0] != "main"@[0]);
    assert("control"@[0] != "windows"@[0]);
    assert("alt"@[0] != "win"@[0]);
    assert("mod1"@[0] != "logo"@[0]);
    assert("mod1"@[3] != "mod4"@[3]);
    assert("mod1"@[1] != "main"@[1]);
    assert("logo"@[0] != "mod4"@[0]);
    assert("logo"@[0] != "main"@[0]);
    assert("mod4"@[1] != "main"@[1]);
}

/// Whether a word is written with small letters and digits.
pub open spec fn word_is_low(word: Seq<char>) -> bool {
    word.len() > 0 && forall|i: int|
        0 <= i < word.len() ==> 'a' <= #[trigger] word[i] <= 'z' || '0' <= word[i] <= '9'
}

proof fn low_is_lowered(name: Seq<char>, word: Seq<char>)
    requires
        action_laws::spells(name, word),
        word_is_low(word),
    ensures
        text::lowercase(text::trimmed(name)) == word,
        text::trimmed(name) == name,
{
    assert forall|i: int| 0 <= i < word.len() implies text::lowercase(name)[i] == word[i] by {
        assert(name[i] == word[i] || ('a' <= word[i] <= 'z' && name[i] as int == word[i] as int
            - 32));
        assert('a' <= word[i] <= 'z' || '0' <= word[i] <= '9');
    }
    assert(text::lowercase(name) =~= word);
    let last = name.len() - 1;
    assert(name[0] == word[0] || ('a' <= word[0] <= 'z' && name[0] as int == word[0] as int - 32));
    assert('a' <= word[0] <= 'z' || '0' <= word[0] <= '9');
    assert(name[last] == word[last] || ('a' <= word[last] <= 'z' && name[last] as int
        == word[last] as int - 32));
    assert('a' <= word[last] <= 'z' || '0' <= word[last] <= '9');
    text::dark_ends_are_trimmed(name);
}

proof fn saying_more(names: Seq<Seq<char>>, name: Seq<char>, word: Seq<char>)
    ensures
        says(names.push(name), word) == (says(names, word) || action_laws::spells(name, word)),
{
    let more = names.push(name);
    if says(names, word) {
        let i = choose|i: int|
            0 <= i < names.len() && action_laws::spells(#[trigger] names[i], word);
        assert(action_laws::spells(more[i], word));
    }
    if action_laws::spells(name, word) {
        assert(action_laws::spells(more[names.len() as int], word));
    }
    if says(more, word) {
        let i = choose|i: int|
            0 <= i < more.len() && action_laws::spells(#[trigger] more[i], word);
        if i < names.len() {
            assert(action_laws::spells(names[i], word));
        }
    }
}

/// A name spells one modifier word only.
proof fn spells_one(name: Seq<char>, word: Seq<char>, other: Seq<char>)
    requires
        is_modifier_word(word),
        is_modifier_word(other),
        action_laws::spells(name, word),
    ensures
        action_laws::spells(name, other) == (other == word),
{
    modifier_words_differ();
    low_is_lowered(name, word);
    if action_laws::spells(name, other) {
        low_is_lowered(name, other);
    }
}

proof fn names_are_said(names: Seq<Seq<char>>, combo: Seq<char>, main_key: MainKey)
    requires
        forall|i: int| 0 <= i < names.len() ==> is_modifier_name(#[trigger] names[i]),
    ensures
        keybinds::combo_parts(names, combo, main_key) matches Ok(found) && found.1 is None
            && as_said(found.0, names, main_key),
    decreases names.len(),
{
    if names.len() > 0 {
        let rest = names.drop_last();
        let name = names.last();
        assert(names[names.len() - 1] == name);
        assert forall|i: int| 0 <= i < rest.len() implies is_modifier_name(#[trigger] rest[i]) by {
            assert(rest[i] == names[i]);
        }
        names_are_said(rest, combo, main_key);
        assert(names =~= rest.push(name));
        let word = choose|word: Seq<char>| #[trigger]
            is_modifier_word(word) && action_laws::spells(name, word);
        modifier_words_differ();
        low_is_lowered(name, word);
        spells_one(name, word, "shift"@);
        saying_more(rest, name, "shift"@);
        spells_one(name, word, "ctrl"@);
        saying_more(rest, name, "ctrl"@);
        spells_one(name, word, "control"@);
        saying_more(rest, name, "control"@);
        spells_one(name, word, "alt"@);
        saying_more(rest, name, "alt"@);
        spells_one(name, word, "mod1"@);
        saying_more(rest, name, "mod1"@);
        spells_one(name, word, "super"@);
        saying_more(rest, name, "super"@);
        spells_one(name, word, "logo"@);
        saying_more(rest, name, "logo"@);
        spells_one(name, word, "win"@);
        saying_more(rest, name, "win"@);
        spells_one(name, word, "windows"@);
        saying_more(rest, name, "windows"@);
        spells_one(name, word, "mod4"@);
        saying_more(rest, name, "mod4"@);
        spells_one(name, word, "main"@);
        saying_more(rest, name, "main"@);
    }
}

/// A combo of modifier names and one key sets exactly the modifiers that it names, in letters of any
/// case and under any of their names, `main` standing for the main key; a key of one character counts
/// in capitals.
pub proof fn modifiers_go_by_their_names(
    combo: Seq<char>,
    names: Seq<Seq<char>>,
    key: char,
    main_key: MainKey,
)
    requires
        text::segments(combo, '+') == names.push(seq![key]),
        forall|i: int| 0 <= i < names.len() ==> is_modifier_name(#[trigger] names[i]),
        !text::white_space(key),
    ensures
        keybinds::combo_value(combo, main_key) matches Ok(found) && as_said(
            found.0,
            names,
            main_key,
        ) && found.1.len() == 1 && found.1[0] as int == (if 'a' <= key <= 'z' {
            key as int - 32
        } else {
            key as int
        }),
{
    names_are_said(names, combo, main_key);
    let parts = names.push(seq![key]);
    assert(parts.drop_last() =~= names);
    let part = seq![key];
    text::dark_ends_are_trimmed(part);
    let word = text::lowercase(part);
    assert(word.len() == 1);
    modifier_words_differ();
    assert(!is_modifier_word(word));
    let name = text::uppercase(part);
    reveal_strlit("ENTER");
    reveal_strlit("ESC");
    reveal_strlit("SPACEBAR");
    assert(name.len() == 1);
    assert(name[0] == text::raised(key));
}

/// What the names of the main keys are in small letters tells them apart.
pub proof fn main_names_differ(name: Seq<char>)
    ensures
        action_laws::spells(name, "super"@) || action_laws::spells(name, "mod4"@)
            ==> keybinds::main_key_value(name) == Ok::<MainKey, Failure>(MainKey::Super),
        action_laws::spells(name, "alt"@) || action_laws::spells(name, "mod1"@)
            ==> keybinds::main_key_value(name) == Ok::<MainKey, Failure>(MainKey::Alt),
        action_laws::spells(name, "ctrl"@) || action_laws::spells(name, "control"@)
            ==> keybinds::main_key_value(name) == Ok::<MainKey, Failure>(MainKey::Ctrl),
{
    modifier_words_differ();
    assert(is_modifier_word("super"@) && is_modifier_word("mod4"@) && is_modifier_word("alt"@)
        && is_modifier_word("mod1"@) && is_modifier_word("ctrl"@) && is_modifier_word("control"@));
    if action_laws::spells(name, "super"@) {
        low_is_lowered(name, "super"@);
    }
    if action_laws::spells(name, "mod4"@) {
        low_is_lowered(name, "mod4"@);
    }
    if action_laws::spells(name, "alt"@) {
        low_is_lowered(name, "alt"@);
    }
    if action_laws::spells(name, "mod1"@) {
        low_is_lowered(name, "mod1"@);
    }
    if action_laws::spells(name, "ctrl"@) {
        low_is_lowered(name, "ctrl"@);
    }
    if action_laws::spells(name, "control"@) {
        low_is_lowered(name, "control"@);
    }
}

} // verus!
