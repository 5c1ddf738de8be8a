//! Laws of binding lines: every action goes by its own names, whatever the case of their letters.

use crate::config::keybinds;
use crate::config::keybinds::{Deed, MainKey};
use crate::numbers;
use crate::text;
use vstd::prelude::*;

verus! {

/// Whether a text is a word: something without white space.
pub open spec fn is_word(word: Seq<char>) -> bool {
    word.len() > 0 && forall|i: int| 0 <= i < word.len() ==> !text::white_space(#[trigger] word[i])
}

/// Whether a name is this word, written with small or capital letters.
pub open spec fn spells(name: Seq<char>, word: Seq<char>) -> bool {
    name.len() == word.len() && forall|i: int|
        0 <= i < word.len() ==> #[trigger] name[i] == word[i] || ('a' <= word[i] <= 'z'
            && name[i] as int == word[i] as int - 32)
}

/// Whether a word is written with small letters and underscores.
pub open spec fn is_small(word: Seq<char>) -> bool {
    word.len() > 0 && forall|i: int|
        0 <= i < word.len() ==> 'a' <= #[trigger] word[i] <= 'z' || word[i] == '_'
}

/// The line that binds a combo to an action without arguments.
pub open spec fn plain_line(combo: Seq<char>, name: Seq<char>) -> Seq<char> {
    combo + seq![' '] + name
}

/// The line that binds a combo to an action with one argument.
pub open spec fn argument_line(combo: Seq<char>, name: Seq<char>, argument: Seq<char>) -> Seq<
    char,
> {
    combo + seq![' '] + name + seq![' '] + argument
}

/// Whether a line is read as a binding of this action to the combo.
pub open spec fn binds(line: Seq<char>, combo: Seq<char>, main_key: MainKey, deed: Deed) -> bool {
    keybinds::keybind_value(line, main_key) matches Ok(bind) && bind.action == deed
        && keybinds::combo_value(combo, main_key) == Ok::<_, crate::errors::Failure>(
        (bind.modifiers, bind.key),
    )
}

/// A name in letters of any case is, in small letters, the word.
pub proof fn spelled_is_lowered(name: Seq<char>, word: Seq<char>)
    requires
        spells(name, word),
        is_small(word),
    ensures
        text::lowercase(name) == word,
        is_word(name),
{
    assert forall|i: int| 0 <= i < word.len() implies text::lowercase(name)[i] == word[i] by {
        assert(name[i] == word[i] || ('a' <= word[i] <= 'z' && name[i] as int == word[i] as int
            - 32));
        assert('a' <= word[i] <= 'z' || word[i] == '_');
    }
    assert(text::lowercase(name) =~= word);
    assert forall|i: int| 0 <= i < name.len() implies !text::white_space(#[trigger] name[i]) by {
        assert(name[i] == word[i] || ('a' <= word[i] <= 'z' && name[i] as int == word[i] as int
            - 32));
        assert('a' <= word[i] <= 'z' || word[i] == '_');
    }
}

/// A word alone is its own only word.
pub proof fn word_alone(word: Seq<char>)
    requires
        is_word(word),
    ensures
        text::words(word) == seq![word],
        text::words(seq![' '] + word) == seq![word],
        text::trimmed(word) == word,
{
    text::first_space_is_first(word, word.len() as int);
    text::dark_ends_are_trimmed(word);
    let spaced = seq![' '] + word;
    assert(spaced.skip(1) =~= word);
    assert(text::white_space(spaced[0]));
    assert(text::words(spaced) == text::words(spaced.skip(1)));
}

proof fn two_words(first: Seq<char>, second: Seq<char>)
    requires
        is_word(first),
        is_word(second),
    ensures
        text::words(plain_line(first, second)) == seq![first, second],
        text::trimmed(plain_line(first, second)) == plain_line(first, second),
{
    word_alone(first);
    word_alone(second);
    let line = plain_line(first, second);
    let tail = seq![' '] + second;
    assert(line =~= first + tail);
    text::words_of_both(first, tail);
    assert(text::words(line) =~= seq![first, second]);
    assert(line[0] == first[0]);
    assert(line.last() == second[second.len() - 1]);
    text::dark_ends_are_trimmed(line);
}

proof fn three_words(first: Seq<char>, second: Seq<char>, third: Seq<char>)
    requires
        is_word(first),
        is_word(second),
        is_word(third),
    ensures
        text::words(argument_line(first, second, third)) == seq![first, second, third],
        text::trimmed(argument_line(first, second, third)) == argument_line(first, second, third),
{
    two_words(first, second);
    word_alone(third);
    let line = argument_line(first, second, third);
    let head = plain_line(first, second);
    let tail = seq![' '] + third;
    assert(line =~= head + tail);
    text::words_of_both(head, tail);
    assert(text::words(line) =~= seq![first, second, third]);
    assert(line[0] == first[0]);
    assert(line.last() == third[third.len() - 1]);
    text::dark_ends_are_trimmed(line);
}

proof fn nothing_is_blank()
    ensures
        text::blank(seq![]),
{
    assert(text::trimmed_start(Seq::<char>::empty()) == Seq::<char>::empty());
}

/// A name that is not one of those with an argument, and means something alone.
proof fn plain_name_binds(combo: Seq<char>, name: Seq<char>, word: Seq<char>, main_key: MainKey)
    requires
        is_word(combo),
        spells(name, word),
        is_small(word),
        keybinds::combo_value(combo, main_key) is Ok,
        word != "exec"@,
        word != "workspace"@,
        word != "movetoworkspace"@,
        keybinds::plain_action(name, word) is Some,
    ensures
        binds(
            plain_line(combo, name),
            combo,
            main_key,
            keybinds::plain_action(name, word).unwrap(),
        ),
        forall|argument: Seq<char>|
            is_word(argument) ==> #[trigger] keybinds::keybind_value(
                argument_line(combo, name, argument),
                main_key,
            ) is Err,
{
    spelled_is_lowered(name, word);
    two_words(combo, name);
    let parts = seq![combo, name];
    assert(parts.skip(2) =~= seq![]);
    nothing_is_blank();
    assert forall|argument: Seq<char>| is_word(argument) implies #[trigger] keybinds::keybind_value(
        argument_line(combo, name, argument),
        main_key,
    ) is Err by {
        three_words(combo, name, argument);
        let all = seq![combo, name, argument];
        assert(all.skip(2) =~= seq![argument]);
        word_alone(argument);
        assert(!text::blank(argument));
    }
}

proof fn plain_names(name: Seq<char>)
    ensures
        keybinds::plain_action(name, "terminal"@) == Some(Deed::Terminal),
        keybinds::plain_action(name, "launcher"@) == Some(Deed::Launcher),
        keybinds::plain_action(name, "close"@) == Some(Deed::CloseFocused),
        keybinds::plain_action(name, "close_focused"@) == Some(Deed::CloseFocused),
        keybinds::plain_action(name, "close_window"@) == Some(Deed::CloseFocused),
        keybinds::plain_action(name, "fullscreen"@) == Some(Deed::ToggleFullscreen),
        keybinds::plain_action(name, "togglefullscreen"@) == Some(Deed::ToggleFullscreen),
        keybinds::plain_action(name, "toggle_floating"@) == Some(Deed::ToggleFloating),
        keybinds::plain_action(name, "togglefloating"@) == Some(Deed::ToggleFloating),
        keybinds::plain_action(name, "floating"@) == Some(Deed::ToggleFloating),
        keybinds::plain_action(name, "quit"@) == Some(Deed::Quit),
        keybinds::plain_action(name, "focus_next"@) == Some(Deed::FocusNext),
        keybinds::plain_action(name, "next"@) == Some(Deed::FocusNext),
        keybinds::plain_action(name, "focus_prev"@) == Some(Deed::FocusPrevious),
        keybinds::plain_action(name, "focus_previous"@) == Some(Deed::FocusPrevious),
        keybinds::plain_action(name, "prev"@) == Some(Deed::FocusPrevious),
        keybinds::plain_action(name, "reload"@) == Some(Deed::ReloadConfig),
        keybinds::plain_action(name, "reload_config"@) == Some(Deed::ReloadConfig),
{
    reveal_strlit("terminal");
    reveal_strlit("launcher");
    reveal_strlit("close");
    reveal_strlit("close_focused");
    reveal_strlit("close_window");
    reveal_strlit("fullscreen");
    reveal_strlit("togglefullscreen");
    reveal_strlit("toggle_floating");
    reveal_strlit("togglefloating");
    reveal_strlit("floating");
    reveal_strlit("quit");
    reveal_strlit("focus_next");
    reveal_strlit("next");
    reveal_strlit("focus_prev");
    reveal_strlit("focus_previous");
    reveal_strlit("prev");
    reveal_strlit("reload");
    reveal_strlit("reload_config");
    assert("terminal"@.len() == 8);
    assert("launcher"@.len() == 8);
    assert("close"@.len() == 5);
    assert("close_focused"@.len() == 13);
    assert("close_window"@.len() == 12);
    assert("fullscreen"@.len() == 10);
    assert("togglefullscreen"@.len() == 16);
    assert("toggle_floating"@.len() == 15);
    assert("togglefloating"@.len() == 14);
    assert("floating"@.len() == 8);
    assert("quit"@.len() == 4);
    assert("focus_next"@.len() == 10);
    assert("next"@.len() == 4);
    assert("focus_prev"@.len() == 10);
    assert("focus_previous"@.len() == 14);
    assert("prev"@.len() == 4);
    assert("reload"@.len() == 6);
    assert("reload_config"@.len() == 13);
    assert("launcher"@[0] != "terminal"@[0]);
    assert("floating"@[0] != "terminal"@[0]);
    assert("floating"@[0] != "launcher"@[0]);
    assert("reload_config"@[0] != "close_focused"@[0]);
    assert("focus_next"@[1] != "fullscreen"@[1]);
    assert("focus_prev"@[1] != "fullscreen"@[1]);
    assert("focus_prev"@[6] != "focus_next"@[6]);
    assert("focus_previous"@[0] != "togglefloating"@[0]);
    assert("next"@[0] != "quit"@[0]);
    assert("prev"@[0] != "quit"@[0]);
    assert("prev"@[0] != "next"@[0]);
}

/// The names that take an argument, and those that do not, are written with small letters.
proof fn names_are_small()
    ensures
        forall|word: Seq<char>| #[trigger]
            is_action_word(word) ==> is_small(word) && word != "exec"@ && word != "workspace"@
                && word != "movetoworkspace"@,
        is_small("exec"@),
        is_small("workspace"@),
        is_small("movetoworkspace"@),
        "exec"@ != "workspace"@,
        "exec"@ != "movetoworkspace"@,
        "workspace"@ != "movetoworkspace"@,
{
    reveal_strlit("terminal");
    reveal_strlit("launcher");
    reveal_strlit("close");
    reveal_strlit("close_focused");
    reveal_strlit("close_window");
    reveal_strlit("fullscreen");
    reveal_strlit("togglefullscreen");
    reveal_strlit("toggle_floating");
    reveal_strlit("togglefloating");
    reveal_strlit("floating");
    reveal_strlit("quit");
    reveal_strlit("focus_next");
    reveal_strlit("next");
    reveal_strlit("focus_prev");
    reveal_strlit("focus_previous");
    reveal_strlit("prev");
    reveal_strlit("reload");
    reveal_strlit("reload_config");
    reveal_strlit("exec");
    reveal_strlit("workspace");
    reveal_strlit("movetoworkspace");
    assert("terminal"@.len() == 8);
    assert("launcher"@.len() == 8);
    assert("close"@.len() == 5);
    assert("close_focused"@.len() == 13);
    assert("close_window"@.len() == 12);
    assert("fullscreen"@.len() == 10);
    assert("togglefullscreen"@.len() == 16);
    assert("toggle_floating"@.len() == 15);
    assert("togglefloating"@.len() == 14);
    assert("floating"@.len() == 8);
    assert("quit"@.len() == 4);
    assert("focus_next"@.len() == 10);
    assert("next"@.len() == 4);
    assert("focus_prev"@.len() == 10);
    assert("focus_previous"@.len() == 14);
    assert("prev"@.len() == 4);
    assert("reload"@.len() == 6);
    assert("reload_config"@.len() == 13);
    assert("exec"@.len() == 4);
    assert("workspace"@.len() == 9);
    assert("movetoworkspace"@.len() == 15);
    assert("quit"@[0] != "exec"@[0]);
    assert("next"@[0] != "exec"@[0]);
    assert("prev"@[0] != "exec"@[0]);
    assert("toggle_floating"@[0] != "movetoworkspace"@[0]);
}

/// The words that name an action without arguments.
pub open spec fn is_action_word(word: Seq<char>) -> bool {
    ||| word == "terminal"@
    ||| word == "launcher"@
    ||| word == "close"@
    ||| word == "close_focused"@
    ||| word == "close_window"@
    ||| word == "fullscreen"@
    ||| word == "togglefullscreen"@
    ||| word == "toggle_floating"@
    ||| word == "togglefloating"@
    ||| word == "floating"@
    ||| word == "quit"@
    ||| word == "focus_next"@
    ||| word == "next"@
    ||| word == "focus_prev"@
    ||| word == "focus_previous"@
    ||| word == "prev"@
    ||| word == "reload"@
    ||| word == "reload_config"@
}

/// A line of a combo and the name of an action, in letters of any case, binds that action: `terminal`
/// and `launcher` start programs, `close` closes the focused window, `fullscreen` and `floating`
/// toggle what they name, `quit` ends, `next` and `prev` move the focus, `reload` reads the
/// configuration again; each has longer names, too. None of them takes an argument.
pub proof fn action_goes_by_its_name(
    combo: Seq<char>,
    name: Seq<char>,
    word: Seq<char>,
    main_key: MainKey,
)
    requires
        is_word(combo),
        keybinds::combo_value(combo, main_key) is Ok,
        is_action_word(word),
        spells(name, word),
    ensures
        ({
            let line = plain_line(combo, name);
            &&& word == "terminal"@ ==> binds(line, combo, main_key, Deed::Terminal)
            &&& word == "launcher"@ ==> binds(line, combo, main_key, Deed::Launcher)
            &&& word == "close"@ || word == "close_focused"@ || word == "close_window"@ ==> binds(
                line,
                combo,
                main_key,
                Deed::CloseFocused,
            )
            &&& word == "fullscreen"@ || word == "togglefullscreen"@ ==> binds(
                line,
                combo,
                main_key,
                Deed::ToggleFullscreen,
            )
            &&& word == "floating"@ || word == "togglefloating"@ || word == "toggle_floating"@
                ==> binds(line, combo, main_key, Deed::ToggleFloating)
            &&& word == "quit"@ ==> binds(line, combo, main_key, Deed::Quit)
            &&& word == "next"@ || word == "focus_next"@ ==> binds(
                line,
                combo,
                main_key,
                Deed::FocusNext,
            )
            &&& word == "prev"@ || word == "focus_prev"@ || word == "focus_previous"@ ==> binds(
                line,
                combo,
                main_key,
                Deed::FocusPrevious,
            )
            &&& word == "reload"@ || word == "reload_config"@ ==> binds(
                line,
                combo,
                main_key,
                Deed::ReloadConfig,
            )
        }),
        forall|argument: Seq<char>|
            is_word(argument) ==> #[trigger] keybinds::keybind_value(
                argument_line(combo, name, argument),
                main_key,
            ) is Err,
{
    names_are_small();
    plain_names(name);
    plain_name_binds(combo, name, word, main_key);
}

/// A line of a combo, `workspace` and a number from one to ten binds the switch to that workspace,
/// counted from zero; with `movetoworkspace` it binds the move of the focused window there. Other
/// numbers are refused.
pub proof fn workspace_goes_by_its_number(
    combo: Seq<char>,
    name: Seq<char>,
    number: nat,
    main_key: MainKey,
)
    requires
        is_word(combo),
        keybinds::combo_value(combo, main_key) is Ok,
        number <= usize::MAX,
        spells(name, "workspace"@) || spells(name, "movetoworkspace"@),
    ensures
        ({
            let line = argument_line(combo, name, numbers::decimal(number));
            &&& 1 <= number <= 10 && spells(name, "workspace"@) ==> binds(
                line,
                combo,
                main_key,
                Deed::SwitchWorkspace((number - 1) as usize),
            )
            &&& 1 <= number <= 10 && spells(name, "movetoworkspace"@) ==> binds(
                line,
                combo,
                main_key,
                Deed::MoveFocusedToWorkspace((number - 1) as usize),
            )
            &&& number < 1 || number > 10 ==> keybinds::keybind_value(line, main_key) is Err
        }),
{
    names_are_small();
    let argument = numbers::decimal(number);
    numbers::decimal_reads_back(number, usize::MAX as int);
    numbers::unsigned_round_trip(number, usize::MAX as int);
    assert(is_word(argument)) by {
        assert forall|i: int| 0 <= i < argument.len() implies !text::white_space(
            #[trigger] argument[i],
        ) by {
            assert(text::ascii_digit(argument[i]));
        }
    }
    let word = if spells(name, "workspace"@) {
        "workspace"@
    } else {
        "movetoworkspace"@
    };
    spelled_is_lowered(name, word);
    if spells(name, "workspace"@) && spells(name, "movetoworkspace"@) {
        spelled_is_lowered(name, "movetoworkspace"@);
    }
    three_words(combo, name, argument);
    let all = seq![combo, name, argument];
    assert(all.skip(2) =~= seq![argument]);
    word_alone(argument);
    assert(!keybinds::has_space(argument));
}

/// A line of a combo, `exec` and a command binds the start of that command; without a command it is
/// refused.
pub proof fn exec_goes_by_its_command(
    combo: Seq<char>,
    name: Seq<char>,
    command: Seq<char>,
    main_key: MainKey,
)
    requires
        is_word(combo),
        keybinds::combo_value(combo, main_key) is Ok,
        spells(name, "exec"@),
        is_word(command),
    ensures
        binds(argument_line(combo, name, command), combo, main_key, Deed::Exec(command)),
        keybinds::keybind_value(plain_line(combo, name), main_key) is Err,
{
    names_are_small();
    spelled_is_lowered(name, "exec"@);
    three_words(combo, name, command);
    two_words(combo, name);
    let all = seq![combo, name, command];
    assert(all.skip(2) =~= seq![command]);
    assert(seq![combo, name].skip(2) =~= seq![]);
    word_alone(command);
    nothing_is_blank();
}

} // verus!
