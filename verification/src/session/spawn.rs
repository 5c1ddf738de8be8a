//! How programs are started: what is added to their command lines, and what their environment is.

use crate::backend::scanout;
use crate::backend::scanout::env_truthy;
use crate::config::runtime;
use crate::config::runtime::{set_env, unset_env, EnvChange, RuntimeConfig, Settings};
use crate::text;
use crate::text::{
    contains, is_blank, same_text, split, split_whitespace, starts_with, to_lowercase, trim,
};
use vstd::prelude::*;

verus! {

/// Whether a word of a command line sets a variable.
pub open spec fn sets_variable(word: Seq<char>) -> bool {
    text::holds(word, "="@) && !text::begins_with(word, "/"@) && !text::begins_with(word, "./"@)
}

/// The program that the words of a command line start: the first that is neither a leading `env` nor
/// sets a variable, without its directory.
pub open spec fn program_in(words: Seq<Seq<char>>, saw_env: bool) -> Option<Seq<char>>
    decreases words.len(),
{
    if words.len() == 0 {
        None
    } else if !saw_env && words[0] == "env"@ {
        program_in(words.skip(1), true)
    } else if sets_variable(words[0]) {
        program_in(words.skip(1), saw_env)
    } else {
        Some(text::segments(words[0], '/').last())
    }
}

/// The program that a command line starts.
pub open spec fn program_of(command: Seq<char>) -> Option<Seq<char>> {
    program_in(text::words(command), false)
}

/// The program that a command line starts.
pub fn infer_command_program(command: &str) -> (program: Option<String>)
    ensures
        text::text_view(program) == program_of(command@),
{
    let words = split_whitespace(command);
    let ghost all = text::texts(words@);
    let mut saw_env = false;
    let mut index: usize = 0;
    assert(all.skip(0) =~= all);
    while index < words.len()
        invariant
            index <= words.len(),
            all == text::texts(words@),
            all == text::words(command@),
            program_in(all, false) == program_in(all.skip(index as int), saw_env),
        decreases words.len() - index,
    {
        let ghost rest = all.skip(index as int);
        assert(rest.skip(1) =~= all.skip(index + 1));
        assert(rest[0] == words[index as int]@);
        let word = words[index].as_str();
        if !saw_env && same_text(word, "env") {
            saw_env = true;
        } else if contains(word, "=") && !starts_with(word, "/") && !starts_with(word, "./") {
        } else {
            let parts = split(word, '/');
            proof {
                some_segment(word@, '/');
            }
            let last = parts[parts.len() - 1].as_str().to_owned();
            assert(text::texts(parts@).last() == last@);
            return Some(last);
        }
        index = index + 1;
    }
    None
}

proof fn some_segment(word: Seq<char>, mark: char)
    ensures
        text::segments(word, mark).len() > 0,
{
}

/// What a terminal emulator is told so that it draws no decorations: a word that shows that its
/// command line says so already, and what is added otherwise.
pub open spec fn decoration_words(program: Seq<char>) -> Option<(Seq<char>, Seq<char>)> {
    if program == "alacritty"@ {
        Some(("window.decorations="@, " -o window.decorations=None"@))
    } else if program == "kitty"@ {
        Some(("hide_window_decorations"@, " -o hide_window_decorations=yes"@))
    } else if program == "wezterm"@ {
        Some(("window_decorations="@, " --config window_decorations=NONE"@))
    } else {
        None
    }
}

/// A command line that asks for no decorations, where clients are to draw none.
pub open spec fn undecorated(command: Seq<char>, no_csd: bool) -> Seq<char> {
    let plain = text::trimmed(command);
    if plain.len() == 0 || !no_csd {
        plain
    } else {
        match program_of(plain) {
            Some(program) => match decoration_words(program) {
                Some((said, added)) => if text::holds(text::lowercase(plain), said) {
                    plain
                } else {
                    plain + added
                },
                None => plain,
            },
            None => plain,
        }
    }
}

fn with_word(plain: String, said: &str, added: &str) -> (command: String)
    ensures
        command@ == (if text::holds(text::lowercase(plain@), said@) {
            plain@
        } else {
            plain@ + added@
        }),
{
    let lower = to_lowercase(plain.as_str());
    if contains(lower.as_str(), said) {
        plain
    } else {
        let mut command = plain;
        command.append(added);
        command
    }
}

/// A command line that asks for no decorations, where clients are to draw none.
pub fn apply_no_csd_spawn_overrides(command: &str, no_csd: bool) -> (changed: String)
    ensures
        changed@ == undecorated(command@, no_csd),
{
    let plain = trim(command);
    if plain.as_str().is_empty() || !no_csd {
        return plain;
    }
    let program = match infer_command_program(plain.as_str()) {
        Some(program) => program,
        None => return plain,
    };
    if same_text(program.as_str(), "alacritty") {
        with_word(plain, "window.decorations=", " -o window.decorations=None")
    } else if same_text(program.as_str(), "kitty") {
        with_word(plain, "hide_window_decorations", " -o hide_window_decorations=yes")
    } else if same_text(program.as_str(), "wezterm") {
        with_word(plain, "window_decorations=", " --config window_decorations=NONE")
    } else {
        plain
    }
}

proof fn program_is_first(words: Seq<Seq<char>>, more: Seq<Seq<char>>, saw_env: bool)
    requires
        program_in(words, saw_env) is Some,
    ensures
        program_in(words + more, saw_env) == program_in(words, saw_env),
    decreases words.len(),
{
    assert((words + more).skip(1) =~= words.skip(1) + more);
    if !saw_env && words[0] == "env"@ {
        program_is_first(words.skip(1), more, true);
    } else if sets_variable(words[0]) {
        program_is_first(words.skip(1), more, saw_env);
    }
}

/// What is added to a trimmed command line leaves it trimmed, with the same program, and stands in it.
proof fn words_are_added(plain: Seq<char>, added: Seq<char>)
    requires
        plain.len() > 0,
        text::trimmed(plain) == plain,
        program_of(plain) is Some,
        added.len() > 0,
        text::white_space(added[0]),
        !text::white_space(added.last()),
    ensures
        text::trimmed(plain + added) == plain + added,
        program_of(plain + added) == program_of(plain),
        text::lowercase(plain + added) == text::lowercase(plain) + text::lowercase(added),
{
    let both = plain + added;
    text::trimmed_begins_dark(plain);
    assert(both[0] == plain[0]);
    assert(both.last() == added.last());
    text::dark_ends_are_trimmed(both);
    text::words_of_both(plain, added);
    program_is_first(text::words(plain), text::words(added), false);
    assert(text::lowercase(both) =~= text::lowercase(plain) + text::lowercase(added));
}

proof fn decorations_are_said(program: Seq<char>)
    requires
        decoration_words(program) is Some,
    ensures
        ({
            let (said, added) = decoration_words(program).unwrap();
            &&& added.len() > 0
            &&& text::white_space(added[0])
            &&& !text::white_space(added.last())
            &&& text::holds(text::lowercase(added), said)
        }),
{
    reveal_strlit("window.decorations=");
    reveal_strlit(" -o window.decorations=None");
    reveal_strlit("hide_window_decorations");
    reveal_strlit(" -o hide_window_decorations=yes");
    reveal_strlit("window_decorations=");
    reveal_strlit(" --config window_decorations=NONE");
    let (said, added) = decoration_words(program).unwrap();
    let lower = text::lowercase(added);
    if program == "alacritty"@ {
        assert(lower.subrange(4, 4int + said.len()) =~= said);
    } else if program == "kitty"@ {
        assert(lower.subrange(4, 4int + said.len()) =~= said);
    } else {
        assert(lower.subrange(10, 10int + said.len()) =~= said);
    }
}

/// Asking for no decorations twice is asking once.
pub proof fn undecorated_twice(command: Seq<char>, no_csd: bool)
    ensures
        undecorated(undecorated(command, no_csd), no_csd) == undecorated(command, no_csd),
{
    let plain = text::trimmed(command);
    text::trimmed_twice(command);
    if undecorated(command, no_csd) != plain {
        let program = program_of(plain).unwrap();
        let (said, added) = decoration_words(program).unwrap();
        decorations_are_said(program);
        words_are_added(plain, added);
        text::longer_holds(text::lowercase(plain), text::lowercase(added), said);
    }
}

/// Whether a program is a browser of the Chromium family.
pub open spec fn chromium_family(program: Seq<char>) -> bool {
    ||| program == "brave"@
    ||| program == "brave-browser"@
    ||| program == "chromium"@
    ||| program == "chromium-browser"@
    ||| program == "google-chrome"@
    ||| program == "chrome"@
    ||| program == "microsoft-edge"@
}

fn is_chromium_family(program: &str) -> (result: bool)
    ensures
        result == chromium_family(program@),
{
    same_text(program, "brave") || same_text(program, "brave-browser") || same_text(
        program,
        "chromium",
    ) || same_text(program, "chromium-browser") || same_text(program, "google-chrome")
        || same_text(program, "chrome") || same_text(program, "microsoft-edge")
}

/// What a browser is told of explicit synchronisation.
pub open spec fn sync_flag(explicit_sync: bool) -> Seq<char> {
    if explicit_sync {
        "--enable-features=WaylandLinuxDrmSyncobj"@
    } else {
        "--disable-features=WaylandLinuxDrmSyncobj"@
    }
}

/// What a browser is told of explicit synchronisation.
pub fn chromium_sync_flags(explicit_sync: bool) -> (flag: &'static str)
    ensures
        flag@ == sync_flag(explicit_sync),
{
    if explicit_sync {
        "--enable-features=WaylandLinuxDrmSyncobj"
    } else {
        "--disable-features=WaylandLinuxDrmSyncobj"
    }
}

/// What is added to the command line of a browser.
pub open spec fn browser_words(lower: Seq<char>, explicit_sync: bool) -> Seq<char> {
    (if text::holds(lower, "--ozone-platform="@) || text::holds(lower, "--ozone-platform-hint="@) {
        Seq::<char>::empty()
    } else {
        " --ozone-platform=wayland"@
    }) + (if text::holds(lower, "waylandlinuxdrmsyncobj"@) {
        Seq::<char>::empty()
    } else {
        " "@ + sync_flag(explicit_sync)
    })
}

/// A command line that asks a browser to use Wayland, and explicit synchronisation or not.
pub open spec fn for_wayland(command: Seq<char>, explicit_sync: bool) -> Seq<char> {
    let plain = text::trimmed(command);
    if plain.len() == 0 {
        plain
    } else {
        match program_of(plain) {
            Some(program) => if chromium_family(program) {
                plain + browser_words(text::lowercase(plain), explicit_sync)
            } else {
                plain
            },
            None => plain,
        }
    }
}

/// A command line that asks a browser to use Wayland, and explicit synchronisation or not.
pub fn apply_wayland_browser_spawn_overrides(command: &str, explicit_sync: bool) -> (changed: String)
    ensures
        changed@ == for_wayland(command@, explicit_sync),
{
    let plain = trim(command);
    if plain.as_str().is_empty() {
        return plain;
    }
    let program = match infer_command_program(plain.as_str()) {
        Some(program) => program,
        None => return plain,
    };
    if !is_chromium_family(program.as_str()) {
        return plain;
    }
    let ghost before = plain@;
    let lower = to_lowercase(plain.as_str());
    let mut changed = plain;
    if !contains(lower.as_str(), "--ozone-platform=") && !contains(
        lower.as_str(),
        "--ozone-platform-hint=",
    ) {
        changed.append(" --ozone-platform=wayland");
    }
    if !contains(lower.as_str(), "waylandlinuxdrmsyncobj") {
        changed.append(" ");
        changed.append(chromium_sync_flags(explicit_sync));
    }
    assert(changed@ =~= before + browser_words(lower@, explicit_sync));
    changed
}

proof fn browser_words_are_said(lower: Seq<char>, explicit_sync: bool)
    ensures
        ({
            let added = browser_words(lower, explicit_sync);
            let both = lower + text::lowercase(added);
            &&& added.len() > 0 ==> text::white_space(added[0]) && !text::white_space(added.last())
            &&& browser_words(both, explicit_sync) == Seq::<char>::empty()
        }),
{
    reveal_strlit(" --ozone-platform=wayland");
    reveal_strlit("--ozone-platform=");
    reveal_strlit("--ozone-platform-hint=");
    reveal_strlit("waylandlinuxdrmsyncobj");
    reveal_strlit(" ");
    reveal_strlit("--enable-features=WaylandLinuxDrmSyncobj");
    reveal_strlit("--disable-features=WaylandLinuxDrmSyncobj");
    let platform = if text::holds(lower, "--ozone-platform="@) || text::holds(
        lower,
        "--ozone-platform-hint="@,
    ) {
        Seq::<char>::empty()
    } else {
        " --ozone-platform=wayland"@
    };
    let sync = if text::holds(lower, "waylandlinuxdrmsyncobj"@) {
        Seq::<char>::empty()
    } else {
        " "@ + sync_flag(explicit_sync)
    };
    let added = browser_words(lower, explicit_sync);
    assert(added =~= platform + sync);
    let small = text::lowercase(added);
    let (first, second) = (text::lowercase(platform), text::lowercase(sync));
    assert(small =~= first + second);
    text::longer_holds(lower, small, "--ozone-platform="@);
    text::longer_holds(lower, small, "--ozone-platform-hint="@);
    text::longer_holds(lower, small, "waylandlinuxdrmsyncobj"@);
    text::longer_holds(first, second, "--ozone-platform="@);
    text::longer_holds(first, second, "waylandlinuxdrmsyncobj"@);
    if platform.len() > 0 {
        let said = "--ozone-platform="@;
        assert(first.subrange(1, 1int + said.len()) =~= said);
        assert(text::holds(first, said));
    }
    if sync.len() > 0 {
        let said = "waylandlinuxdrmsyncobj"@;
        if explicit_sync {
            assert(second.subrange(19, 19int + said.len()) =~= said);
        } else {
            assert(second.subrange(20, 20int + said.len()) =~= said);
        }
        assert(text::holds(second, said));
    }
}

/// Asking a browser to use Wayland twice is asking once.
pub proof fn for_wayland_twice(command: Seq<char>, explicit_sync: bool)
    ensures
        for_wayland(for_wayland(command, explicit_sync), explicit_sync) == for_wayland(
            command,
            explicit_sync,
        ),
{
    let plain = text::trimmed(command);
    text::trimmed_twice(command);
    let once = for_wayland(command, explicit_sync);
    if once != plain {
        let added = browser_words(text::lowercase(plain), explicit_sync);
        if added.len() == 0 {
            assert(once =~= plain);
        }
        browser_words_are_said(text::lowercase(plain), explicit_sync);
        words_are_added(plain, added);
        assert(once + Seq::<char>::empty() =~= once);
    }
}

/// A command line that asks for no decorations has no white space round it.
pub proof fn undecorated_is_trimmed(command: Seq<char>, no_csd: bool)
    ensures
        text::trimmed(undecorated(command, no_csd)) == undecorated(command, no_csd),
{
    let plain = text::trimmed(command);
    text::trimmed_twice(command);
    if undecorated(command, no_csd) != plain {
        let program = program_of(plain).unwrap();
        let (said, added) = decoration_words(program).unwrap();
        decorations_are_said(program);
        words_are_added(plain, added);
    }
}

/// The switches for explicit synchronisation.
pub struct SyncSwitches<'a> {
    pub disable: Option<&'a str>,
    pub chromium_disable: Option<&'a str>,
    pub chromium_explicit: Option<&'a str>,
}

/// Whether browsers are to use explicit synchronisation: never where it is disabled; else as the
/// switch says, or else where the compositor offers it.
pub open spec fn explicit_sync(
    disable: Option<Seq<char>>,
    chromium_disable: Option<Seq<char>>,
    chromium_explicit: Option<Seq<char>>,
    offered: bool,
) -> bool {
    if scanout::switch(disable) == Some(true) || scanout::switch(chromium_disable) == Some(true) {
        false
    } else {
        match scanout::switch(chromium_explicit) {
            Some(explicit) => explicit,
            None => offered,
        }
    }
}

/// Whether browsers are to use explicit synchronisation.
pub fn chromium_explicit_sync_enabled(switches: &SyncSwitches, offered: bool) -> (enabled: bool)
    ensures
        enabled == explicit_sync(
            text::slice_view(switches.disable),
            text::slice_view(switches.chromium_disable),
            text::slice_view(switches.chromium_explicit),
            offered,
        ),
{
    let disabled = match env_truthy(switches.disable) {
        Some(disabled) => disabled,
        None => false,
    };
    let chromium_disabled = match env_truthy(switches.chromium_disable) {
        Some(disabled) => disabled,
        None => false,
    };
    if disabled || chromium_disabled {
        return false;
    }
    match env_truthy(switches.chromium_explicit) {
        Some(explicit) => explicit,
        None => offered,
    }
}

/// The command line that is run for a command; none, where the command is blank.
pub open spec fn spawned(command: Seq<char>, no_csd: bool, explicit_sync: bool) -> Option<
    Seq<char>,
> {
    if text::blank(command) {
        None
    } else {
        Some(for_wayland(undecorated(command, no_csd), explicit_sync))
    }
}

/// The command line that is run for a command; none, where the command is blank.
pub fn spawn_command(config: &RuntimeConfig, command: &str, explicit_sync: bool) -> (line: Option<
    String,
>)
    ensures
        text::text_view(line) == spawned(command@, config@.general.no_csd, explicit_sync),
{
    if is_blank(command) {
        return None;
    }
    let plain = apply_no_csd_spawn_overrides(command, config.no_csd);
    Some(apply_wayland_browser_spawn_overrides(plain.as_str(), explicit_sync))
}

/// The command line that is run for the terminal.
pub fn spawn_terminal(config: &RuntimeConfig, explicit_sync: bool) -> (line: Option<String>)
    ensures
        text::text_view(line) == spawned(
            config@.general.terminal,
            config@.general.no_csd,
            explicit_sync,
        ),
{
    spawn_command(config, config.terminal.as_str(), explicit_sync)
}

/// The command line that is run for the launcher.
pub fn spawn_launcher(config: &RuntimeConfig, explicit_sync: bool) -> (line: Option<String>)
    ensures
        text::text_view(line) == spawned(
            config@.general.launcher,
            config@.general.no_csd,
            explicit_sync,
        ),
{
    spawn_command(config, config.launcher.as_str(), explicit_sync)
}

/// The display that X11 clients are told of.
pub open spec fn x11_display(found: Settings) -> Option<Seq<char>> {
    let display = text::trimmed(found.xwayland.display);
    if found.xwayland.enabled && display.len() > 0 {
        Some(display)
    } else {
        None
    }
}

/// The display that X11 clients are told of.
pub fn x11_display_of(config: &RuntimeConfig) -> (display: Option<String>)
    ensures
        text::text_view(display) == x11_display(config@),
{
    let display = trim(config.xwayland.display.as_str());
    if config.xwayland.enabled && !display.as_str().is_empty() {
        Some(display)
    } else {
        None
    }
}

/// What all clients are told of the session.
pub open spec fn session_environment(socket: Seq<char>, runtime_dir: Option<Seq<char>>) -> Seq<
    (Seq<char>, Option<Seq<char>>),
> {
    seq![("WAYLAND_DISPLAY"@, Some(socket))] + (match runtime_dir {
        Some(dir) => seq![("XDG_RUNTIME_DIR"@, Some(dir))],
        None => seq![],
    }) + seq![
        ("XDG_SESSION_TYPE"@, Some("wayland"@)),
        ("XDG_CURRENT_DESKTOP"@, Some("raven"@)),
        ("XDG_SESSION_DESKTOP"@, Some("raven"@)),
    ]
}

/// What no client may know of other compositors and of other wallpapers.
pub open spec fn foreign_environment() -> Seq<(Seq<char>, Option<Seq<char>>)> {
    seq![
        ("HYPRLAND_INSTANCE_SIGNATURE"@, None),
        ("HYPRLAND_CMD"@, None),
        ("SWAYSOCK"@, None),
        ("SWWW_SOCKET"@, None),
        ("SWWW_DAEMON_SOCKET"@, None),
        ("SWWW_NAMESPACE"@, None),
    ]
}

/// What the toolkits of clients are told, so that they use Wayland.
pub open spec fn toolkit_environment() -> Seq<(Seq<char>, Option<Seq<char>>)> {
    seq![
        ("GDK_BACKEND"@, Some("wayland"@)),
        ("QT_QPA_PLATFORM"@, Some("wayland"@)),
        ("MOZ_ENABLE_WAYLAND"@, Some("1"@)),
    ]
}

/// What the environment must leave to the clients to choose.
pub open spec fn neutral_environment() -> Seq<(Seq<char>, Option<Seq<char>>)> {
    seq![
        ("MOZ_DBUS_REMOTE"@, None),
        ("SDL_VIDEODRIVER"@, None),
        ("NIXOS_OZONE_WL"@, None),
        ("OZONE_PLATFORM"@, None),
        ("OZONE_PLATFORM_HINT"@, None),
        ("ELECTRON_OZONE_PLATFORM_HINT"@, None),
        ("CHROMIUM_FLAGS"@, None),
        ("BRAVE_USER_FLAGS"@, None),
    ]
}

/// The changes of the environment for a program that the compositor starts.
pub open spec fn child_environment(
    found: Settings,
    socket: Seq<char>,
    runtime_dir: Option<Seq<char>>,
) -> Seq<(Seq<char>, Option<Seq<char>>)> {
    session_environment(socket, runtime_dir) + toolkit_environment() + neutral_environment() + seq![
        (
            "QT_WAYLAND_DISABLE_WINDOWDECORATION"@,
            if found.general.no_csd {
                Some("1"@)
            } else {
                None
            },
        ),
        ("DISPLAY"@, x11_display(found)),
    ] + foreign_environment()
}

/// The changes of the environment for a program that draws the wallpaper.
pub open spec fn wallpaper_environment(socket: Seq<char>, runtime_dir: Option<Seq<char>>) -> Seq<
    (Seq<char>, Option<Seq<char>>),
> {
    session_environment(socket, runtime_dir) + seq![("DISPLAY"@, None)] + foreign_environment()
}

fn push_session(changes: &mut Vec<EnvChange>, socket: &str, runtime_dir: Option<&str>)
    requires
        old(changes)@.len() == 0,
    ensures
        runtime::env_view(final(changes)@) == session_environment(
            socket@,
            text::slice_view(runtime_dir),
        ),
{
    set_env(changes, "WAYLAND_DISPLAY", socket);
    if let Some(dir) = runtime_dir {
        set_env(changes, "XDG_RUNTIME_DIR", dir);
    }
    set_env(changes, "XDG_SESSION_TYPE", "wayland");
    set_env(changes, "XDG_CURRENT_DESKTOP", "raven");
    set_env(changes, "XDG_SESSION_DESKTOP", "raven");
    assert(runtime::env_view(changes@) =~= session_environment(
        socket@,
        text::slice_view(runtime_dir),
    ));
}

fn push_toolkits(changes: &mut Vec<EnvChange>)
    ensures
        runtime::env_view(final(changes)@) == runtime::env_view(old(changes)@)
            + toolkit_environment(),
{
    let ghost before = runtime::env_view(changes@);
    set_env(changes, "GDK_BACKEND", "wayland");
    set_env(changes, "QT_QPA_PLATFORM", "wayland");
    set_env(changes, "MOZ_ENABLE_WAYLAND", "1");
    assert(runtime::env_view(changes@) =~= before + toolkit_environment());
}

fn push_neutral(changes: &mut Vec<EnvChange>)
    ensures
        runtime::env_view(final(changes)@) == runtime::env_view(old(changes)@)
            + neutral_environment(),
{
    let ghost before = runtime::env_view(changes@);
    unset_env(changes, "MOZ_DBUS_REMOTE");
    unset_env(changes, "SDL_VIDEODRIVER");
    unset_env(changes, "NIXOS_OZONE_WL");
    unset_env(changes, "OZONE_PLATFORM");
    unset_env(changes, "OZONE_PLATFORM_HINT");
    unset_env(changes, "ELECTRON_OZONE_PLATFORM_HINT");
    unset_env(changes, "CHROMIUM_FLAGS");
    unset_env(changes, "BRAVE_USER_FLAGS");
    assert(runtime::env_view(changes@) =~= before + neutral_environment());
}

fn push_foreign(changes: &mut Vec<EnvChange>)
    ensures
        runtime::env_view(final(changes)@) == runtime::env_view(old(changes)@)
            + foreign_environment(),
{
    let ghost before = runtime::env_view(changes@);
    unset_env(changes, "HYPRLAND_INSTANCE_SIGNATURE");
    unset_env(changes, "HYPRLAND_CMD");
    unset_env(changes, "SWAYSOCK");
    unset_env(changes, "SWWW_SOCKET");
    unset_env(changes, "SWWW_DAEMON_SOCKET");
    unset_env(changes, "SWWW_NAMESPACE");
    assert(runtime::env_view(changes@) =~= before + foreign_environment());
}

/// The changes of the environment for a program that the compositor starts.
pub fn apply_wayland_child_env(config: &RuntimeConfig, socket: &str, runtime_dir: Option<&str>) -> (changes:
    Vec<EnvChange>)
    ensures
        runtime::env_view(changes@) == child_environment(
            config@,
            socket@,
            text::slice_view(runtime_dir),
        ),
{
    let mut changes: Vec<EnvChange> = Vec::new();
    push_session(&mut changes, socket, runtime_dir);
    push_toolkits(&mut changes);
    push_neutral(&mut changes);
    let ghost before = runtime::env_view(changes@);
    if config.no_csd {
        set_env(&mut changes, "QT_WAYLAND_DISABLE_WINDOWDECORATION", "1");
    } else {
        unset_env(&mut changes, "QT_WAYLAND_DISABLE_WINDOWDECORATION");
    }
    match x11_display_of(config) {
        Some(display) => set_env(&mut changes, "DISPLAY", display.as_str()),
        None => unset_env(&mut changes, "DISPLAY"),
    }
    assert(runtime::env_view(changes@) =~= before + seq![
        (
            "QT_WAYLAND_DISABLE_WINDOWDECORATION"@,
            if config@.general.no_csd {
                Some("1"@)
            } else {
                None
            },
        ),
        ("DISPLAY"@, x11_display(config@)),
    ]);
    push_foreign(&mut changes);
    changes
}

/// The changes of the environment for a program that draws the wallpaper.
pub fn apply_wayland_env_with_socket(socket: &str, runtime_dir: Option<&str>) -> (changes: Vec<
    EnvChange,
>)
    ensures
        runtime::env_view(changes@) == wallpaper_environment(
            socket@,
            text::slice_view(runtime_dir),
        ),
{
    let mut changes: Vec<EnvChange> = Vec::new();
    push_session(&mut changes, socket, runtime_dir);
    let ghost before = runtime::env_view(changes@);
    unset_env(&mut changes, "DISPLAY");
    assert(runtime::env_view(changes@) =~= before + seq![("DISPLAY"@, None::<Seq<char>>)]);
    push_foreign(&mut changes);
    changes
}

} // verus!
