//! Laws of what is started: a command is run as it is written, but for what the programs that are known
//! are told besides.

use crate::config::action_laws;
use crate::config::runtime::Wallpaper;
use crate::session::spawn;
use crate::session::wallpaper;
use crate::session::wallpaper::Plan;
use crate::text;
use vstd::prelude::*;

verus! {

/// Whether a word is the name of a program: it has no directory and sets no variable.
pub open spec fn is_program(word: Seq<char>) -> bool {
    &&& action_laws::is_word(word)
    &&& word != "env"@
    &&& forall|i: int| 0 <= i < word.len() ==> #[trigger] word[i] != '/' && word[i] != '='
}

proof fn program_is_itself(word: Seq<char>)
    requires
        is_program(word),
    ensures
        spawn::program_of(word) == Some(word),
        text::trimmed(word) == word,
{
    action_laws::word_alone(word);
    reveal_strlit("=");
    assert(!text::holds(word, "="@)) by {
        if text::holds(word, "="@) {
            let at = choose|at: int|
                0 <= at && at + "="@.len() <= word.len() && #[trigger] word.subrange(
                    at,
                    at + "="@.len(),
                ) == "="@;
            assert(word.subrange(at, at + "="@.len())[0] == word[at]);
        }
    }
    text::first_mark_is_first(word, '/', word.len() as int);
    assert(text::segments(word, '/') == seq![word]);
    let words = text::words(word);
    assert(words[0] == word);
    assert(spawn::program_in(words, false) == Some(text::segments(words[0], '/').last()));
}

proof fn begins_with_itself(start: Seq<char>, more: Seq<char>)
    ensures
        text::begins_with(start + more, start),
{
    assert((start + more).take(start.len() as int) =~= start);
}

/// Whatever is added to a command, what was written comes first; a blank command runs nothing.
pub proof fn command_comes_first(command: Seq<char>, no_csd: bool, explicit_sync: bool)
    ensures
        text::blank(command) <==> spawn::spawned(command, no_csd, explicit_sync) is None,
        !text::blank(command) ==> text::begins_with(
            spawn::spawned(command, no_csd, explicit_sync).unwrap(),
            text::trimmed(command),
        ),
{
    if !text::blank(command) {
        let plain = text::trimmed(command);
        let bare = spawn::undecorated(command, no_csd);
        let line = spawn::for_wayland(bare, explicit_sync);
        begins_with_itself(plain, seq![]);
        assert(plain + seq![] =~= plain);
        if let Some(program) = spawn::program_of(plain) {
            if let Some((said, added)) = spawn::decoration_words(program) {
                begins_with_itself(plain, added);
            }
        }
        assert(text::begins_with(bare, plain));
        spawn::undecorated_is_trimmed(command, no_csd);
        if let Some(program) = spawn::program_of(bare) {
            let words = spawn::browser_words(text::lowercase(bare), explicit_sync);
            assert((bare + words).take(plain.len() as int) =~= bare.take(plain.len() as int));
        }
    }
}

/// A program that nothing special is known of is started as it is.
pub proof fn unknown_program_is_left_alone(word: Seq<char>, no_csd: bool, explicit_sync: bool)
    requires
        is_program(word),
        word != "alacritty"@ && word != "kitty"@ && word != "wezterm"@,
        word != "brave"@ && word != "brave-browser"@ && word != "chromium"@ && word
            != "chromium-browser"@ && word != "google-chrome"@ && word != "chrome"@ && word
            != "microsoft-edge"@,
    ensures
        spawn::spawned(word, no_csd, explicit_sync) == Some(word),
{
    program_is_itself(word);
}

/// The browsers that are known.
pub open spec fn is_browser(word: Seq<char>) -> bool {
    ||| word == "brave"@
    ||| word == "brave-browser"@
    ||| word == "chromium"@
    ||| word == "chromium-browser"@
    ||| word == "google-chrome"@
    ||| word == "chrome"@
    ||| word == "microsoft-edge"@
}

proof fn short_holds_nothing(text: Seq<char>, part: Seq<char>)
    requires
        part.len() > text.len(),
    ensures
        !text::holds(text, part),
{
}

proof fn known_programs_are_short(word: Seq<char>)
    requires
        is_browser(word) || word == "alacritty"@ || word == "kitty"@ || word == "wezterm"@,
    ensures
        is_program(word),
        word.len() <= 16,
        is_browser(word) ==> word != "alacritty"@ && word != "kitty"@ && word != "wezterm"@,
        word == "kitty"@ ==> word != "alacritty"@ && word != "wezterm"@,
        word == "wezterm"@ ==> word != "alacritty"@,
{
    reveal_strlit("env");
    reveal_strlit("brave");
    reveal_strlit("brave-browser");
    reveal_strlit("chromium");
    reveal_strlit("chromium-browser");
    reveal_strlit("google-chrome");
    reveal_strlit("chrome");
    reveal_strlit("microsoft-edge");
    reveal_strlit("alacritty");
    reveal_strlit("kitty");
    reveal_strlit("wezterm");
    assert("brave"@.len() == 5);
    assert("brave-browser"@.len() == 13);
    assert("chromium"@.len() == 8);
    assert("chromium-browser"@.len() == 16);
    assert("google-chrome"@.len() == 13);
    assert("chrome"@.len() == 6);
    assert("microsoft-edge"@.len() == 14);
    assert("alacritty"@.len() == 9);
    assert("kitty"@.len() == 5);
    assert("wezterm"@.len() == 7);
    assert("kitty"@[0] != "brave"@[0]);
}

/// A known browser is told to use Wayland, and to use explicit synchronisation or not to; a known
/// terminal is told to draw no decorations where clients are to draw none.
pub proof fn known_programs_are_told(word: Seq<char>, explicit_sync: bool)
    requires
        is_browser(word) || word == "alacritty"@ || word == "kitty"@ || word == "wezterm"@,
    ensures
        is_browser(word) && explicit_sync ==> spawn::spawned(word, true, explicit_sync) == Some(
            word + " --ozone-platform=wayland"@ + " "@ + "--enable-features=WaylandLinuxDrmSyncobj"@,
        ),
        is_browser(word) && !explicit_sync ==> spawn::spawned(word, true, explicit_sync) == Some(
            word + " --ozone-platform=wayland"@ + " "@
                + "--disable-features=WaylandLinuxDrmSyncobj"@,
        ),
        word == "alacritty"@ ==> spawn::undecorated(word, true) == word
            + " -o window.decorations=None"@,
        word == "kitty"@ ==> spawn::undecorated(word, true) == word
            + " -o hide_window_decorations=yes"@,
        word == "wezterm"@ ==> spawn::undecorated(word, true) == word
            + " --config window_decorations=NONE"@,
        spawn::undecorated(word, false) == word,
{
    known_programs_are_short(word);
    program_is_itself(word);
    reveal_strlit("--ozone-platform=");
    reveal_strlit("--ozone-platform-hint=");
    reveal_strlit("waylandlinuxdrmsyncobj");
    reveal_strlit("window.decorations=");
    reveal_strlit("hide_window_decorations");
    reveal_strlit("window_decorations=");
    let lower = text::lowercase(word);
    assert(lower.len() == word.len());
    short_holds_nothing(lower, "--ozone-platform="@);
    short_holds_nothing(lower, "--ozone-platform-hint="@);
    short_holds_nothing(lower, "waylandlinuxdrmsyncobj"@);
    short_holds_nothing(lower, "window.decorations="@);
    short_holds_nothing(lower, "hide_window_decorations"@);
    short_holds_nothing(lower, "window_decorations="@);
    if is_browser(word) {
        assert(spawn::undecorated(word, true) == word);
        let told = spawn::browser_words(lower, explicit_sync);
        assert(word + told =~= word + " --ozone-platform=wayland"@ + " "@ + spawn::sync_flag(
            explicit_sync,
        ));
    }
}

/// The plan for the wallpaper: nothing while it is disabled; the command that restores it, where one is
/// set, and else the picture.
pub proof fn wallpaper_goes_by_its_settings(found: Wallpaper)
    ensures
        !found.enabled ==> wallpaper::plan_of(found) is Nothing,
        found.enabled && !text::blank(found.restore_command) && text::trimmed(found.restore_command)
            != "waypaper --restore"@ ==> wallpaper::plan_of(found) == Plan::Restore(
            text::trimmed(found.restore_command),
        ),
        found.enabled && text::blank(found.restore_command) && !text::blank(found.image)
            ==> wallpaper::plan_of(found) == Plan::Image(text::trimmed(found.image)),
        found.enabled && text::blank(found.restore_command) && text::blank(found.image)
            ==> wallpaper::plan_of(found) is NoImage,
        found.enabled && !text::blank(found.restore_command) ==> wallpaper::plan_of(found)
            is Restore,
{
}

} // verus!
