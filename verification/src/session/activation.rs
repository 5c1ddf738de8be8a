//! What the session's service managers are told of the compositor's environment.

use crate::config::runtime::{RuntimeConfig, Settings};
use crate::session::commands;
use crate::session::commands::{
    extend_texts, no_texts, push_assignment, push_line, push_text, CommandLine, Line,
};
use crate::session::spawn;
use crate::session::spawn::{chromium_sync_flags, x11_display_of};
use crate::text;
use vstd::prelude::*;

verus! {

/// A variable with its value.
pub open spec fn assignment(name: Seq<char>, value: Seq<char>) -> Seq<char> {
    name + "="@ + value
}

/// A text, or an empty one.
pub open spec fn or_empty(value: Option<Seq<char>>) -> Seq<char> {
    match value {
        Some(value) => value,
        None => Seq::<char>::empty(),
    }
}

/// `1` for a setting that is on, else nothing.
pub open spec fn mark_of(on: bool) -> Seq<char> {
    if on {
        "1"@
    } else {
        ""@
    }
}

/// The variables that every activated service gets.
pub open spec fn shared_variables(socket: Seq<char>) -> Seq<Seq<char>> {
    seq![
        assignment("WAYLAND_DISPLAY"@, socket),
        "XDG_CURRENT_DESKTOP=raven"@,
        "XDG_SESSION_TYPE=wayland"@,
        "XDG_SESSION_DESKTOP=raven"@,
    ]
}

/// What browsers are told.
pub open spec fn browser_variables(explicit_sync: bool) -> Seq<Seq<char>> {
    seq![
        assignment("CHROMIUM_FLAGS"@, spawn::sync_flag(explicit_sync)),
        assignment("BRAVE_USER_FLAGS"@, spawn::sync_flag(explicit_sync)),
    ]
}

/// The arguments for the message bus: all variables, those that are to be cleared with no value.
pub open spec fn bus_arguments(found: Settings, socket: Seq<char>, explicit_sync: bool) -> Seq<
    Seq<char>,
> {
    seq!["--systemd"@] + shared_variables(socket) + seq![
        "GDK_BACKEND="@,
        "QT_QPA_PLATFORM="@,
        "SDL_VIDEODRIVER="@,
        "MOZ_ENABLE_WAYLAND="@,
        "MOZ_DBUS_REMOTE="@,
    ] + browser_variables(explicit_sync) + seq![
        assignment("DISPLAY"@, or_empty(spawn::x11_display(found))),
        assignment("QT_WAYLAND_DISABLE_WINDOWDECORATION"@, mark_of(found.general.no_csd)),
    ]
}

/// The arguments for the service manager: the variables that have a value, and that for decorations.
pub open spec fn manager_arguments(found: Settings, socket: Seq<char>, explicit_sync: bool) -> Seq<
    Seq<char>,
> {
    seq!["--user"@, "set-environment"@] + shared_variables(socket) + browser_variables(
        explicit_sync,
    ) + (match spawn::x11_display(found) {
        Some(display) => seq![assignment("DISPLAY"@, display)],
        None => seq![],
    }) + seq![assignment("QT_WAYLAND_DISABLE_WINDOWDECORATION"@, mark_of(found.general.no_csd))]
}

/// The arguments that clear what would mislead portals.
pub open spec fn clearing_arguments() -> Seq<Seq<char>> {
    seq![
        "--user"@,
        "unset-environment"@,
        "GDK_BACKEND"@,
        "QT_QPA_PLATFORM"@,
        "SDL_VIDEODRIVER"@,
        "MOZ_ENABLE_WAYLAND"@,
        "MOZ_DBUS_REMOTE"@,
    ]
}

/// The commands that tell the message bus and the service manager of the environment; without a
/// display for X11 clients, one more clears it.
pub open spec fn activation_lines(found: Settings, socket: Seq<char>, explicit_sync: bool) -> Seq<
    Line,
> {
    seq![
        Line {
            program: "dbus-update-activation-environment"@,
            args: bus_arguments(found, socket, explicit_sync),
        },
        Line { program: "systemctl"@, args: manager_arguments(found, socket, explicit_sync) },
        Line { program: "systemctl"@, args: clearing_arguments() },
    ] + (if spawn::x11_display(found) is None {
        seq![
            Line {
                program: "systemctl"@,
                args: seq!["--user"@, "unset-environment"@, "DISPLAY"@],
            },
        ]
    } else {
        seq![]
    })
}

fn shared(socket: &str) -> (list: Vec<String>)
    ensures
        text::texts(list@) == shared_variables(socket@),
{
    let mut list = no_texts();
    push_assignment(&mut list, "WAYLAND_DISPLAY", socket);
    push_text(&mut list, "XDG_CURRENT_DESKTOP=raven");
    push_text(&mut list, "XDG_SESSION_TYPE=wayland");
    push_text(&mut list, "XDG_SESSION_DESKTOP=raven");
    assert(text::texts(list@) =~= shared_variables(socket@));
    list
}

fn browsers(explicit_sync: bool) -> (list: Vec<String>)
    ensures
        text::texts(list@) == browser_variables(explicit_sync),
{
    let mut list = no_texts();
    push_assignment(&mut list, "CHROMIUM_FLAGS", chromium_sync_flags(explicit_sync));
    push_assignment(&mut list, "BRAVE_USER_FLAGS", chromium_sync_flags(explicit_sync));
    assert(text::texts(list@) =~= browser_variables(explicit_sync));
    list
}

fn decoration_mark(no_csd: bool) -> (mark: &'static str)
    ensures
        mark@ == mark_of(no_csd),
{
    if no_csd {
        "1"
    } else {
        ""
    }
}

fn bus_args(config: &RuntimeConfig, socket: &str, explicit_sync: bool) -> (args: Vec<String>)
    ensures
        text::texts(args@) == bus_arguments(config@, socket@, explicit_sync),
{
    let mut args = no_texts();
    push_text(&mut args, "--systemd");
    extend_texts(&mut args, &shared(socket));
    push_text(&mut args, "GDK_BACKEND=");
    push_text(&mut args, "QT_QPA_PLATFORM=");
    push_text(&mut args, "SDL_VIDEODRIVER=");
    push_text(&mut args, "MOZ_ENABLE_WAYLAND=");
    push_text(&mut args, "MOZ_DBUS_REMOTE=");
    extend_texts(&mut args, &browsers(explicit_sync));
    let display = match x11_display_of(config) {
        Some(display) => display,
        None => String::new(),
    };
    assert(display@ =~= or_empty(spawn::x11_display(config@)));
    push_assignment(&mut args, "DISPLAY", display.as_str());
    push_assignment(
        &mut args,
        "QT_WAYLAND_DISABLE_WINDOWDECORATION",
        decoration_mark(config.no_csd),
    );
    assert(text::texts(args@) =~= bus_arguments(config@, socket@, explicit_sync));
    args
}

fn manager_args(config: &RuntimeConfig, socket: &str, explicit_sync: bool) -> (args: Vec<String>)
    ensures
        text::texts(args@) == manager_arguments(config@, socket@, explicit_sync),
{
    let mut args = no_texts();
    push_text(&mut args, "--user");
    push_text(&mut args, "set-environment");
    extend_texts(&mut args, &shared(socket));
    extend_texts(&mut args, &browsers(explicit_sync));
    if let Some(display) = x11_display_of(config) {
        push_assignment(&mut args, "DISPLAY", display.as_str());
    }
    push_assignment(
        &mut args,
        "QT_WAYLAND_DISABLE_WINDOWDECORATION",
        decoration_mark(config.no_csd),
    );
    assert(text::texts(args@) =~= manager_arguments(config@, socket@, explicit_sync));
    args
}

fn clearing_args() -> (args: Vec<String>)
    ensures
        text::texts(args@) == clearing_arguments(),
{
    let mut args = no_texts();
    push_text(&mut args, "--user");
    push_text(&mut args, "unset-environment");
    push_text(&mut args, "GDK_BACKEND");
    push_text(&mut args, "QT_QPA_PLATFORM");
    push_text(&mut args, "SDL_VIDEODRIVER");
    push_text(&mut args, "MOZ_ENABLE_WAYLAND");
    push_text(&mut args, "MOZ_DBUS_REMOTE");
    assert(text::texts(args@) =~= clearing_arguments());
    args
}

/// The commands that tell the message bus and the service manager of the environment, in order.
pub fn sync_activation_environment(config: &RuntimeConfig, socket: &str, explicit_sync: bool) -> (list:
    Vec<CommandLine>)
    ensures
        commands::lines(list@) == activation_lines(config@, socket@, explicit_sync),
{
    let mut list: Vec<CommandLine> = Vec::new();
    assert(commands::lines(list@) =~= seq![]);
    push_line(
        &mut list,
        "dbus-update-activation-environment",
        bus_args(config, socket, explicit_sync),
    );
    push_line(&mut list, "systemctl", manager_args(config, socket, explicit_sync));
    push_line(&mut list, "systemctl", clearing_args());
    if x11_display_of(config).is_none() {
        let mut args = no_texts();
        push_text(&mut args, "--user");
        push_text(&mut args, "unset-environment");
        push_text(&mut args, "DISPLAY");
        assert(text::texts(args@) =~= seq!["--user"@, "unset-environment"@, "DISPLAY"@]);
        push_line(&mut list, "systemctl", args);
    }
    assert(commands::lines(list@) =~= activation_lines(config@, socket@, explicit_sync));
    list
}

/// The service manager is either told a display for X11 clients or told to forget it, never both.
pub proof fn display_is_set_or_cleared(found: Settings, socket: Seq<char>, explicit_sync: bool)
    ensures
        spawn::x11_display(found) is Some <==> activation_lines(
            found,
            socket,
            explicit_sync,
        ).len() == 3,
{
}

} // verus!
