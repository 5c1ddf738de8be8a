//! The command line: what the program is asked to do, and which session is meant.

use crate::errors;
use crate::errors::{CompositorError, Failure};
use crate::text;
use crate::text::{ends_with, same_text, starts_with};
use vstd::prelude::*;

verus! {

/// Where the compositor draws.
#[derive(Clone, Copy, Debug, PartialEq, Eq, Structural)]
pub enum BackendKind {
    /// In a window of another compositor.
    Winit,
    /// On the screen itself.
    Drm,
}

/// What the program is asked to do.
#[derive(Debug)]
pub enum Launch {
    /// Send this command to a running compositor.
    Ipc(String),
    /// Be the compositor, and start this command.
    Run { backend: BackendKind, spawn: Option<String> },
}

/// A `Launch` as plain values.
pub enum Intent {
    Ipc(Seq<char>),
    Run { backend: BackendKind, spawn: Option<Seq<char>> },
}

impl View for Launch {
    type V = Intent;

    open spec fn view(&self) -> Intent {
        match *self {
            Launch::Ipc(command) => Intent::Ipc(command@),
            Launch::Run { backend, spawn } => Intent::Run {
                backend,
                spawn: text::text_view(spawn),
            },
        }
    }
}

/// Whether a word is a command for a running compositor.
pub open spec fn ipc_command(word: Seq<char>) -> bool {
    word == "clients"@ || word == "monitors"@ || word == "reload"@
}

/// The first word from `from` on that is no option.
pub open spec fn first_plain(args: Seq<Seq<char>>, from: int) -> Option<Seq<char>>
    decreases args.len() - from,
{
    if from < 0 || from >= args.len() {
        None
    } else if !text::begins_with(args[from], "--"@) {
        Some(args[from])
    } else {
        first_plain(args, from + 1)
    }
}

/// What the program is asked to do; `nested` says whether it is started within another compositor.
pub open spec fn intent_of(args: Seq<Seq<char>>, nested: bool) -> Result<Intent, Failure> {
    let winit = args.contains("--winit"@);
    let drm = args.contains("--drm"@) || args.contains("--tty"@);
    if args.len() > 1 && ipc_command(args[1]) {
        Ok(Intent::Ipc(args[1]))
    } else if winit && drm {
        errors::refused("cannot pass both --winit and --drm/--tty"@)
    } else {
        Ok(
            Intent::Run {
                backend: if winit || (!drm && nested) {
                    BackendKind::Winit
                } else {
                    BackendKind::Drm
                },
                spawn: first_plain(args, 1),
            },
        )
    }
}

/// Whether the program is started within another compositor or display server, by what two variables
/// say.
pub fn is_nested(wayland_display: Option<&str>, display: Option<&str>) -> (nested: bool)
    ensures
        nested == (wayland_display is Some || display is Some),
{
    wayland_display.is_some() || display.is_some()
}

fn has_arg(args: &Vec<String>, word: &str) -> (result: bool)
    ensures
        result == text::texts(args@).contains(word@),
{
    let ghost all = text::texts(args@);
    let mut index: usize = 0;
    while index < args.len()
        invariant
            index <= args.len(),
            all == text::texts(args@),
            forall|i: int| 0 <= i < index ==> #[trigger] all[i] != word@,
        decreases args.len() - index,
    {
        if same_text(args[index].as_str(), word) {
            assert(all[index as int] == word@);
            return true;
        }
        index = index + 1;
    }
    false
}

fn spawn_arg(args: &Vec<String>) -> (command: Option<String>)
    ensures
        text::text_view(command) == first_plain(text::texts(args@), 1),
{
    let ghost all = text::texts(args@);
    let mut index: usize = 1;
    while index < args.len()
        invariant
            1 <= index,
            all == text::texts(args@),
            first_plain(all, 1) == first_plain(all, index as int),
        decreases args.len() - index,
    {
        assert(all[index as int] == args[index as int]@);
        if !starts_with(args[index].as_str(), "--") {
            return Some(args[index].as_str().to_owned());
        }
        index = index + 1;
    }
    None
}

/// The outcome of reading the command line as plain values.
pub open spec fn launch_outcome(result: Result<Launch, CompositorError>) -> Result<Intent, Failure> {
    match result {
        Ok(launch) => Ok(launch@),
        Err(error) => Err(error@),
    }
}

/// What the program is asked to do; `args` begins with the program's own name.
pub fn parse_args(args: &Vec<String>, nested: bool) -> (result: Result<Launch, CompositorError>)
    ensures
        launch_outcome(result) == intent_of(text::texts(args@), nested),
{
    let ghost all = text::texts(args@);
    if args.len() > 1 {
        assert(all[1] == args[1]@);
        let word = args[1].as_str();
        if same_text(word, "clients") || same_text(word, "monitors") || same_text(word, "reload") {
            return Ok(Launch::Ipc(word.to_owned()));
        }
    }
    let winit = has_arg(args, "--winit");
    let drm = has_arg(args, "--drm") || has_arg(args, "--tty");
    if winit && drm {
        return Err(
            CompositorError::Backend("cannot pass both --winit and --drm/--tty".to_owned()),
        );
    }
    let backend = if winit || (!drm && nested) {
        BackendKind::Winit
    } else {
        BackendKind::Drm
    };
    Ok(Launch::Run { backend, spawn: spawn_arg(args) })
}

/// Whether a file is the socket of a session, by its name.
pub open spec fn session_socket(name: Seq<char>) -> bool {
    text::begins_with(name, "raven-wayland-"@) && text::ends_in(name, ".sock"@)
}

/// Whether a file is the socket of a session, by its name.
pub fn is_session_socket(name: &str) -> (result: bool)
    ensures
        result == session_socket(name@),
{
    starts_with(name, "raven-wayland-") && ends_with(name, ".sock")
}

/// The names of the files that are sockets of sessions.
pub open spec fn session_sockets(names: Seq<Seq<char>>) -> Seq<Seq<char>>
    decreases names.len(),
{
    if names.len() == 0 {
        names
    } else if session_socket(names.last()) {
        session_sockets(names.drop_last()).push(names.last())
    } else {
        session_sockets(names.drop_last())
    }
}

/// The name of the socket of the session that is meant: `own` where it is there, or else the only one
/// that is.
pub open spec fn socket_choice(own: Option<Seq<char>>, names: Seq<Seq<char>>) -> Result<
    Seq<char>,
    Failure,
> {
    let found = session_sockets(names);
    match own {
        Some(own) => Ok(own),
        None => if found.len() == 1 {
            Ok(found[0])
        } else if found.len() == 0 {
            errors::refused("Raven ipc socket not found (is Raven running?)"@)
        } else {
            errors::refused("multiple Raven sessions detected; set WAYLAND_DISPLAY to select one"@)
        },
    }
}

/// The outcome of a choice as plain text.
pub open spec fn name_outcome(result: Result<String, CompositorError>) -> Result<Seq<char>, Failure> {
    match result {
        Ok(name) => Ok(name@),
        Err(error) => Err(error@),
    }
}

/// The name of the socket of the session that is meant. `own` is the one that the environment names,
/// where it is there, and `names` are the files that are there.
pub fn choose_ipc_socket(own: Option<String>, names: &Vec<String>) -> (result: Result<
    String,
    CompositorError,
>)
    ensures
        name_outcome(result) == socket_choice(text::text_view(own), text::texts(names@)),
{
    if let Some(own) = own {
        return Ok(own);
    }
    let ghost all = text::texts(names@);
    let mut found: Vec<String> = Vec::new();
    let mut index: usize = 0;
    assert(all.take(0) =~= seq![]);
    assert(text::texts(found@) =~= seq![]);
    while index < names.len()
        invariant
            index <= names.len(),
            all == text::texts(names@),
            text::texts(found@) == session_sockets(all.take(index as int)),
        decreases names.len() - index,
    {
        assert(all.take(index + 1).drop_last() =~= all.take(index as int));
        let ghost before = text::texts(found@);
        if is_session_socket(names[index].as_str()) {
            found.push(names[index].as_str().to_owned());
            assert(text::texts(found@) =~= before.push(all[index as int]));
        }
        index = index + 1;
    }
    assert(all.take(all.len() as int) =~= all);
    assert(text::texts(found@).len() == found.len());
    if found.len() == 1 {
        let name = found[0].as_str().to_owned();
        assert(text::texts(found@)[0] == name@);
        Ok(name)
    } else if found.len() == 0 {
        Err(CompositorError::Backend("Raven ipc socket not found (is Raven running?)".to_owned()))
    } else {
        Err(
            CompositorError::Backend(
                "multiple Raven sessions detected; set WAYLAND_DISPLAY to select one".to_owned(),
            ),
        )
    }
}

/// What is made of the answer of a running compositor: an empty one is a failure.
pub fn ipc_answer(response: String) -> (result: Result<String, CompositorError>)
    ensures
        name_outcome(result) == (if response@.len() == 0 {
            errors::refused("empty response from compositor ipc"@)
        } else {
            Ok(response@)
        }),
{
    if response.as_str().is_empty() {
        return Err(CompositorError::Backend("empty response from compositor ipc".to_owned()));
    }
    Ok(response)
}

/// A command for a running compositor is never taken for a command to be started.
pub proof fn ipc_commands_are_sent(args: Seq<Seq<char>>, nested: bool)
    requires
        args.len() > 1,
        ipc_command(args[1]),
    ensures
        intent_of(args, nested) == Ok::<Intent, Failure>(Intent::Ipc(args[1])),
{
}

proof fn first_plain_is_first(args: Seq<Seq<char>>, from: int, at: int)
    requires
        0 <= from <= at < args.len(),
        !text::begins_with(args[at], "--"@),
        forall|i: int| from <= i < at ==> text::begins_with(#[trigger] args[i], "--"@),
    ensures
        first_plain(args, from) == Some(args[at]),
    decreases at - from,
{
    if from < at {
        assert(text::begins_with(args[from], "--"@));
        first_plain_is_first(args, from + 1, at);
    }
}

/// The backend is the one that an option names, or else the nested one within another compositor and
/// that for the hardware outside; both options together are refused.
pub proof fn backend_goes_by_its_option(args: Seq<Seq<char>>, nested: bool)
    requires
        args.len() > 1 ==> args[1] != "clients"@ && args[1] != "monitors"@ && args[1] != "reload"@,
    ensures
        ({
            let winit = args.contains("--winit"@);
            let drm = args.contains("--drm"@) || args.contains("--tty"@);
            &&& winit && drm <==> intent_of(args, nested) is Err
            &&& winit && !drm ==> intent_of(args, nested)->Ok_0->backend == BackendKind::Winit
            &&& drm && !winit ==> intent_of(args, nested)->Ok_0->backend == BackendKind::Drm
            &&& !winit && !drm && nested ==> intent_of(args, nested)->Ok_0->backend
                == BackendKind::Winit
            &&& !winit && !drm && !nested ==> intent_of(args, nested)->Ok_0->backend
                == BackendKind::Drm
        }),
{
}

/// The program that is started with the compositor is the first argument that is no option.
pub proof fn spawned_is_first_plain(args: Seq<Seq<char>>, nested: bool, at: int)
    requires
        1 <= at < args.len(),
        args[1] != "clients"@ && args[1] != "monitors"@ && args[1] != "reload"@,
        intent_of(args, nested) is Ok,
        !text::begins_with(args[at], "--"@),
        forall|i: int| 1 <= i < at ==> text::begins_with(#[trigger] args[i], "--"@),
    ensures
        intent_of(args, nested)->Ok_0->spawn == Some(args[at]),
{
    first_plain_is_first(args, 1, at);
}

} // verus!
