//! Laws of what the environment says: switches, sizes, paths and sockets, and what programs are told.

use crate::backend::scanout;
use crate::cli;
use crate::config::action_laws;
use crate::config::runtime::Settings;
use crate::cursor;
use crate::errors::Failure;
use crate::ipc;
use crate::numbers;
use crate::session::satellite;
use crate::session::spawn;
use crate::session::wallpaper;
use crate::text;
use vstd::prelude::*;

verus! {

/// Whether a variable is set to a word for yes: `true`, `yes` or `on` in letters of any case, or `1`.
pub open spec fn turned_on(value: Option<Seq<char>>) -> bool {
    value matches Some(word) && (action_laws::spells(word, "true"@) || action_laws::spells(
        word,
        "yes"@,
    ) || action_laws::spells(word, "on"@) || word == "1"@)
}

proof fn turned_on_is_read(value: Option<Seq<char>>)
    requires
        turned_on(value),
    ensures
        scanout::switch(value) == Some(true),
{
    reveal_strlit("true");
    reveal_strlit("yes");
    reveal_strlit("on");
    reveal_strlit("1");
    let word = value.unwrap();
    if action_laws::spells(word, "true"@) {
        action_laws::spelled_is_lowered(word, "true"@);
    } else if action_laws::spells(word, "yes"@) {
        action_laws::spelled_is_lowered(word, "yes"@);
    } else if action_laws::spells(word, "on"@) {
        action_laws::spelled_is_lowered(word, "on"@);
    } else {
        assert(text::lowercase("1"@) =~= "1"@);
    }
}

/// The variable that keeps pictures from the screen is heard before the one that lets them through, which
/// is heard before nothing.
pub proof fn disabling_comes_first(disable: Option<Seq<char>>, enable: Option<Seq<char>>)
    ensures
        turned_on(disable) ==> !scanout::direct(disable, enable),
        disable is None && turned_on(enable) ==> scanout::direct(disable, enable),
        disable is None && enable is None ==> scanout::direct(disable, enable),
{
    if turned_on(disable) {
        turned_on_is_read(disable);
    }
    if turned_on(enable) {
        turned_on_is_read(enable);
    }
}

/// Browsers do not synchronise explicitly where either variable disables it, whatever else is said; else
/// they do where they are told to, and with no word on it where the compositor offers it.
pub proof fn disabled_sync_stays_off(
    disable: Option<Seq<char>>,
    chromium_disable: Option<Seq<char>>,
    chromium_explicit: Option<Seq<char>>,
    offered: bool,
)
    ensures
        ({
            let explicit = spawn::explicit_sync(
                disable,
                chromium_disable,
                chromium_explicit,
                offered,
            );
            &&& turned_on(disable) || turned_on(chromium_disable) ==> !explicit
            &&& disable is None && chromium_disable is None && turned_on(chromium_explicit)
                ==> explicit
            &&& disable is None && chromium_disable is None && chromium_explicit is None
                ==> explicit == offered
        }),
{
    if turned_on(disable) {
        turned_on_is_read(disable);
    }
    if turned_on(chromium_disable) {
        turned_on_is_read(chromium_disable);
    }
    if turned_on(chromium_explicit) {
        turned_on_is_read(chromium_explicit);
    }
}

/// The pointer has the size that the variable gives.
pub proof fn pointer_size_is_read_back(size: u32)
    ensures
        cursor::theme_size(Some(numbers::decimal(size as nat))) == size,
{
    numbers::unsigned_round_trip(size as nat, u32::MAX as int);
}

/// A path is one within the home directory where a tilde and a slash stand before it; no other is.
pub proof fn tilde_means_home(path: Seq<char>, home: Seq<char>, inner: Seq<char>)
    ensures
        wallpaper::within_home("~/"@ + inner, Some(home)) == Some(inner),
        wallpaper::within_home(path, Some(home)) == Some(inner) ==> path == "~/"@ + inner,
        wallpaper::within_home(path, None) is None,
{
    reveal_strlit("~/");
    let whole = "~/"@ + inner;
    assert(whole.take(2) =~= "~/"@);
    assert(whole.skip(2) =~= inner);
    if wallpaper::within_home(path, Some(home)) == Some(inner) {
        assert(path =~= path.take(2) + path.skip(2));
    }
}

/// The socket of a session is found again by its name: what a compositor calls it is taken for the socket
/// of a session.
pub proof fn own_socket_is_a_session(wayland_socket: Seq<char>)
    requires
        text::trimmed(wayland_socket) == wayland_socket,
        text::begins_with(wayland_socket, "wayland-"@),
    ensures
        ipc::socket_name(true, wayland_socket) is Ok,
        cli::session_socket(ipc::socket_name(true, wayland_socket)->Ok_0),
        ipc::socket_name(true, wayland_socket)->Ok_0.len() == wayland_socket.len() + 11,
        ipc::socket_name(false, wayland_socket) is Err,
{
    reveal_strlit("wayland-");
    reveal_strlit("raven-");
    reveal_strlit(".sock");
    reveal_strlit("raven-wayland-");
    assert("wayland-"@.len() == 8);
    assert("raven-"@.len() == 6);
    assert(".sock"@.len() == 5);
    assert("raven-wayland-"@.len() == 14);
    assert("raven-"@ + "wayland-"@ =~= "raven-wayland-"@);
    let name = "raven-"@ + wayland_socket + ".sock"@;
    assert(wayland_socket =~= "wayland-"@ + wayland_socket.skip(8));
    assert(name =~= "raven-wayland-"@ + wayland_socket.skip(8) + ".sock"@);
    assert(name.take(14) =~= "raven-wayland-"@);
    assert(name.skip(name.len() - 5) =~= ".sock"@);
}

proof fn sessions_are_found(names: Seq<Seq<char>>, at: int)
    requires
        0 <= at < names.len(),
        forall|i: int| 0 <= i < names.len() ==> (cli::session_socket(#[trigger] names[i]) <==> i == at),
    ensures
        cli::session_sockets(names) == seq![names[at]],
    decreases names.len(),
{
    let rest = names.drop_last();
    if at == names.len() - 1 {
        no_sessions_are_found(rest);
        assert(Seq::<Seq<char>>::empty().push(names[at]) =~= seq![names[at]]);
    } else {
        assert(!cli::session_socket(names[names.len() - 1]));
        assert forall|i: int| 0 <= i < rest.len() implies (cli::session_socket(#[trigger] rest[i])
            <==> i == at) by {
            assert(rest[i] == names[i]);
        }
        sessions_are_found(rest, at);
    }
}

proof fn no_sessions_are_found(names: Seq<Seq<char>>)
    requires
        forall|i: int| 0 <= i < names.len() ==> !cli::session_socket(#[trigger] names[i]),
    ensures
        cli::session_sockets(names) == Seq::<Seq<char>>::empty(),
    decreases names.len(),
{
    if names.len() == 0 {
        assert(names =~= Seq::<Seq<char>>::empty());
    } else {
        let rest = names.drop_last();
        assert(!cli::session_socket(names[names.len() - 1]));
        assert forall|i: int| 0 <= i < rest.len() implies !cli::session_socket(
            #[trigger] rest[i],
        ) by {
            assert(rest[i] == names[i]);
        }
        no_sessions_are_found(rest);
    }
}

/// The only session there is is the one that is meant, whatever other files there are; with no session
/// there is none to mean. A session that is named comes before all others.
pub proof fn only_session_is_meant(names: Seq<Seq<char>>, at: int, own: Seq<char>)
    requires
        -1 <= at < names.len(),
        forall|i: int| 0 <= i < names.len() ==> (cli::session_socket(#[trigger] names[i]) <==> i == at),
    ensures
        at >= 0 ==> cli::socket_choice(None, names) == Ok::<Seq<char>, Failure>(names[at]),
        at < 0 ==> cli::socket_choice(None, names) is Err,
        cli::socket_choice(Some(own), names) == Ok::<Seq<char>, Failure>(own),
{
    if at >= 0 {
        sessions_are_found(names, at);
    } else {
        no_sessions_are_found(names);
    }
}

proof fn free_from_finds(taken: Seq<bool>, from: int, at: int)
    requires
        0 <= from <= at < taken.len(),
        !taken[at],
        forall|i: int| from <= i < at ==> taken[i],
    ensures
        satellite::free_from(taken, from) == Some(at),
    decreases at - from,
{
    if from < at {
        free_from_finds(taken, from + 1, at);
    }
}

/// The display that is picked is the lowest that is free, by its number.
pub proof fn lowest_free_display_is_picked(taken: Seq<bool>, at: int)
    requires
        0 <= at < taken.len(),
        !taken[at],
        forall|i: int| 0 <= i < at ==> taken[i],
    ensures
        satellite::free_display(taken) == Some(":"@ + numbers::decimal(at as nat)),
{
    free_from_finds(taken, 0, at);
}

/// A program is told of the compositor's own socket and directory, and of the display of X11 where there is
/// one; the program that brings X11 itself is told of none after that, nor is one that draws the
/// wallpaper.
pub proof fn programs_are_told_the_socket(
    found: Settings,
    socket: Seq<char>,
    dir: Seq<char>,
    log: Option<Seq<char>>,
)
    ensures
        spawn::child_environment(found, socket, Some(dir)).contains(
            ("WAYLAND_DISPLAY"@, Some(socket)),
        ),
        spawn::child_environment(found, socket, Some(dir)).contains(
            ("XDG_RUNTIME_DIR"@, Some(dir)),
        ),
        found.xwayland.enabled && found.xwayland.display.len() > 0 && text::trimmed(
            found.xwayland.display,
        ) == found.xwayland.display ==> spawn::child_environment(found, socket, Some(dir)).contains(
            ("DISPLAY"@, Some(found.xwayland.display)),
        ),
        !found.xwayland.enabled ==> spawn::child_environment(found, socket, Some(dir)).contains(
            ("DISPLAY"@, None),
        ),
        spawn::wallpaper_environment(socket, Some(dir)).contains(("WAYLAND_DISPLAY"@, Some(socket))),
        spawn::wallpaper_environment(socket, Some(dir)).contains(("DISPLAY"@, None)),
        satellite::satellite_environment(found, socket, Some(dir), log).contains(
            ("WAYLAND_DISPLAY"@, Some(socket)),
        ),
        satellite::satellite_environment(found, socket, Some(dir), log)[spawn::child_environment(
            found,
            socket,
            Some(dir),
        ).len() as int] == ("DISPLAY"@, None::<Seq<char>>),
{
    let child = spawn::child_environment(found, socket, Some(dir));
    assert(child[0] == ("WAYLAND_DISPLAY"@, Some(socket)));
    assert(child[1] == ("XDG_RUNTIME_DIR"@, Some(dir)));
    assert(child[17] == ("DISPLAY"@, spawn::x11_display(found)));
    let picture = spawn::wallpaper_environment(socket, Some(dir));
    assert(picture[0] == ("WAYLAND_DISPLAY"@, Some(socket)));
    assert(picture[5] == ("DISPLAY"@, None::<Seq<char>>));
    let bridge = satellite::satellite_environment(found, socket, Some(dir), log);
    assert(bridge[0] == child[0]);
}

} // verus!
