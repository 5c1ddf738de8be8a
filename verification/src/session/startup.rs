//! What is done when the session starts, and when the configuration is read anew.

use crate::config::runtime::{RuntimeConfig, Settings};
use crate::errors;
use crate::errors::{CompositorError, Failure};
use crate::geometry::{Rectangle, WindowGeometry};
use crate::session::satellite;
use crate::session::satellite::ensure_xwayland_display;
use crate::state::keeping;
use crate::state::laws;
use crate::state::lists;
use crate::state::lists::SurfaceId;
use crate::state::raven::{Raven, State};
use crate::state::space;
use crate::state::tiling_laws;
use crate::state::toplevel::{DecorationMode, ToplevelState};
use vstd::prelude::*;

verus! {

/// Something to be done outside the compositor's own state.
#[derive(Debug)]
pub enum SessionTask {
    ApplyEnvironment,
    SyncActivationEnvironment,
    MaintainSatellite,
    KickPortals,
    Spawn(String),
    EnsureWallpaperDaemon,
    ReloadCursorTheme,
    ApplyWallpaper,
}

/// A `SessionTask` as plain values.
pub enum Task {
    ApplyEnvironment,
    SyncActivationEnvironment,
    MaintainSatellite,
    KickPortals,
    Spawn(Seq<char>),
    EnsureWallpaperDaemon,
    ReloadCursorTheme,
    ApplyWallpaper,
}

impl View for SessionTask {
    type V = Task;

    open spec fn view(&self) -> Task {
        match *self {
            SessionTask::ApplyEnvironment => Task::ApplyEnvironment,
            SessionTask::SyncActivationEnvironment => Task::SyncActivationEnvironment,
            SessionTask::MaintainSatellite => Task::MaintainSatellite,
            SessionTask::KickPortals => Task::KickPortals,
            SessionTask::Spawn(command) => Task::Spawn(command@),
            SessionTask::EnsureWallpaperDaemon => Task::EnsureWallpaperDaemon,
            SessionTask::ReloadCursorTheme => Task::ReloadCursorTheme,
            SessionTask::ApplyWallpaper => Task::ApplyWallpaper,
        }
    }
}

/// The tasks as plain values.
pub open spec fn tasks_view(tasks: Seq<SessionTask>) -> Seq<Task> {
    Seq::new(tasks.len(), |i: int| tasks[i]@)
}

/// The starts of the programs that come with the session.
pub open spec fn autostart_tasks(commands: Seq<Seq<char>>) -> Seq<Task> {
    Seq::new(commands.len(), |i: int| Task::Spawn(commands[i]))
}

fn push_task(tasks: &mut Vec<SessionTask>, task: SessionTask)
    ensures
        tasks_view(final(tasks)@) == tasks_view(old(tasks)@).push(task@),
{
    let ghost before = tasks_view(tasks@);
    tasks.push(task);
    assert(tasks_view(tasks@) =~= before.push(task@));
}

/// What is done when the session starts: `picked` says whether a display was picked for X11 clients,
/// `started` whether the programs that come with the session were started before.
pub open spec fn startup_tasks(found: Settings, picked: bool, started: bool) -> Seq<Task> {
    (if picked {
        seq![Task::SyncActivationEnvironment]
    } else {
        seq![]
    }) + seq![Task::MaintainSatellite, Task::KickPortals] + (if started {
        seq![]
    } else {
        autostart_tasks(found.autostart)
    }) + seq![Task::EnsureWallpaperDaemon, Task::ApplyWallpaper]
}

/// What is done when the configuration is read anew.
pub open spec fn reload_tasks(cursor_theme: bool, laid_out: bool) -> Seq<Task> {
    seq![Task::ApplyEnvironment, Task::SyncActivationEnvironment, Task::MaintainSatellite] + (
    if cursor_theme {
        seq![Task::ReloadCursorTheme]
    } else {
        seq![]
    }) + (if laid_out {
        seq![Task::ApplyWallpaper]
    } else {
        seq![]
    })
}

/// Adds the starts of the programs that come with the session, once.
fn run_autostart_commands(config: &RuntimeConfig, started: &mut bool, tasks: &mut Vec<SessionTask>)
    ensures
        *final(started),
        tasks_view(final(tasks)@) == tasks_view(old(tasks)@) + (if *old(started) {
            Seq::<Task>::empty()
        } else {
            autostart_tasks(config@.autostart)
        }),
{
    let ghost before = tasks_view(tasks@);
    assert(before + Seq::<Task>::empty() =~= before);
    if *started {
        return;
    }
    *started = true;
    let ghost all = autostart_tasks(config@.autostart);
    let mut index: usize = 0;
    assert(all.take(0) =~= Seq::<Task>::empty());
    while index < config.autostart.len()
        invariant
            index <= config.autostart.len(),
            *started,
            all == autostart_tasks(config@.autostart),
            all.len() == config.autostart.len(),
            forall|i: int|
                0 <= i < all.len() ==> #[trigger] all[i] == Task::Spawn(config.autostart[i]@),
            tasks_view(tasks@) == before + all.take(index as int),
        decreases config.autostart.len() - index,
    {
        push_task(tasks, SessionTask::Spawn(config.autostart[index].as_str().to_owned()));
        assert(all.take(index + 1) =~= all.take(index as int).push(all[index as int]));
        assert(before + all.take(index + 1) =~= (before + all.take(index as int)).push(
            all[index as int],
        ));
        index = index + 1;
    }
    assert(all.take(all.len() as int) =~= all);
}

impl State {
    /// The state with a window asked for this kind of decoration.
    #[verifier::opaque]
    pub open spec fn decoration_wanted(self, window: SurfaceId, mode: DecorationMode) -> State {
        let marked = self.with_pending(
            window,
            ToplevelState { decoration_mode: Some(mode), ..self.toplevel(window).pending },
        );
        if self.toplevel(window).configured {
            marked.configured_if_changed(window)
        } else {
            marked
        }
    }

    /// The state with these windows asked for this kind of decoration.
    pub open spec fn decorations_wanted(self, list: Seq<SurfaceId>, mode: DecorationMode) -> State
        decreases list.len(),
    {
        if list.len() == 0 {
            self
        } else {
            self.decorations_wanted(list.drop_last(), mode).decoration_wanted(list.last(), mode)
        }
    }

    /// The state with all windows on the screen asked for the preferred kind of decoration.
    pub open spec fn decorations_applied(self) -> State {
        self.decorations_wanted(space::stack(self.elements), self.decoration())
    }

    /// The state after the configuration was read anew, and the failure of the layout, if any.
    pub open spec fn reloaded(self, found: Settings, taken: Seq<bool>) -> (State, Result<
        (),
        Failure,
    >) {
        State { settings: satellite::with_display(found, taken), ..self }.decorations_applied().laid_out()
    }
}

impl Raven {
    fn ask_decoration(&mut self, window: SurfaceId, mode: DecorationMode)
        requires
            old(self)@.sound(),
        ensures
            final(self)@ == old(self)@.decoration_wanted(window, mode),
            final(self)@.sound(),
    {
        proof {
            reveal(State::decoration_wanted);
        }
        let toplevel = self.toplevel(window);
        self.set_pending_state(
            window,
            ToplevelState { decoration_mode: Some(mode), ..toplevel.pending },
        );
        if toplevel.configured {
            let _ = self.send_pending_configure(window);
        }
    }

    /// Asks all windows on the screen for the preferred kind of decoration.
    pub fn apply_decoration_preferences(&mut self)
        requires
            old(self)@.sound(),
        ensures
            final(self)@ == old(self)@.decorations_applied(),
            final(self)@.sound(),
    {
        let mode = self.preferred_decoration_mode();
        let list = self.stacked_windows();
        let ghost before = self@;
        let mut index: usize = 0;
        assert(list@.take(0) =~= seq![]);
        while index < list.len()
            invariant
                index <= list.len(),
                self@ == before.decorations_wanted(list@.take(index as int), mode),
                self@.sound(),
            decreases list.len() - index,
        {
            assert(list@.take(index + 1).drop_last() =~= list@.take(index as int));
            let window = list[index];
            self.ask_decoration(window, mode);
            index = index + 1;
        }
        assert(list@.take(list@.len() as int) =~= list@);
    }

    /// What is done when the session starts, in order; all outputs are to be drawn anew. `taken` says
    /// which X11 displays are taken, `started` whether the programs that come with the session were
    /// started before.
    pub fn run_startup_tasks(&mut self, taken: &Vec<bool>, started: &mut bool) -> (tasks: Vec<
        SessionTask,
    >)
        ensures
            final(self)@ == (State {
                settings: satellite::with_display(old(self)@.settings, taken@),
                redraw_all: true,
                ..old(self)@
            }),
            *final(started),
            tasks_view(tasks@) == startup_tasks(
                final(self)@.settings,
                satellite::display_picked(old(self)@.settings, taken@),
                *old(started),
            ),
    {
        let picked = ensure_xwayland_display(&mut self.config, taken);
        let mut tasks: Vec<SessionTask> = Vec::new();
        assert(tasks_view(tasks@) =~= seq![]);
        if picked {
            push_task(&mut tasks, SessionTask::SyncActivationEnvironment);
        }
        push_task(&mut tasks, SessionTask::MaintainSatellite);
        push_task(&mut tasks, SessionTask::KickPortals);
        run_autostart_commands(&self.config, started, &mut tasks);
        push_task(&mut tasks, SessionTask::EnsureWallpaperDaemon);
        push_task(&mut tasks, SessionTask::ApplyWallpaper);
        self.redraw_all = true;
        assert(tasks_view(tasks@) =~= startup_tasks(self@.settings, picked, *old(started)));
        tasks
    }

    /// Takes in a configuration that was read anew, and says what is to be done, in order, and
    /// whether the windows could be laid out. `cursor_theme` says whether there is a pointer theme
    /// to be loaded anew.
    pub fn reload_config(&mut self, config: RuntimeConfig, taken: &Vec<bool>, cursor_theme: bool) -> (outcome:
        (Vec<SessionTask>, Result<(), CompositorError>))
        requires
            old(self)@.sound(),
        ensures
            (final(self)@, errors::outcome(outcome.1)) == old(self)@.reloaded(config@, taken@),
            tasks_view(outcome.0@) == reload_tasks(cursor_theme, outcome.1 is Ok),
            final(self)@.sound(),
    {
        self.config = config;
        let _ = ensure_xwayland_display(&mut self.config, taken);
        let mut tasks: Vec<SessionTask> = Vec::new();
        assert(tasks_view(tasks@) =~= seq![]);
        push_task(&mut tasks, SessionTask::ApplyEnvironment);
        push_task(&mut tasks, SessionTask::SyncActivationEnvironment);
        push_task(&mut tasks, SessionTask::MaintainSatellite);
        self.apply_decoration_preferences();
        if cursor_theme {
            push_task(&mut tasks, SessionTask::ReloadCursorTheme);
        }
        let result = self.apply_layout();
        if result.is_ok() {
            push_task(&mut tasks, SessionTask::ApplyWallpaper);
        }
        assert(tasks_view(tasks@) =~= reload_tasks(cursor_theme, result is Ok));
        (tasks, result)
    }
}

pub proof fn decorating_keeps_places(state: State, list: Seq<SurfaceId>, mode: DecorationMode)
    ensures
        state.decorations_wanted(list, mode).keeps_places(state),
    decreases list.len(),
{
    if list.len() > 0 {
        let before = state.decorations_wanted(list.drop_last(), mode);
        let window = list.last();
        decorating_keeps_places(state, list.drop_last(), mode);
        let pending = ToplevelState {
            decoration_mode: Some(mode),
            ..before.toplevel(window).pending
        };
        let marked = before.with_pending(window, pending);
        keeping::asking_keeps_places(before, window, pending, None);
        keeping::asking_keeps_places(marked, window, pending, None);
        reveal(State::decoration_wanted);
        laws::keeping_chains(state, before, marked);
        laws::keeping_chains(state, marked, state.decorations_wanted(list, mode));
    }
}

/// Reading the configuration anew keeps the windows in order.
pub proof fn reload_stays_orderly(state: State, found: Settings, taken: Seq<bool>)
    requires
        state.orderly(),
    ensures
        state.reloaded(found, taken).0.orderly(),
{
    let changed = State { settings: satellite::with_display(found, taken), ..state };
    assert forall|window: SurfaceId| changed.toplevel(window) == #[trigger] state.toplevel(
        window,
    ) by {}
    assert forall|i: int, window: SurfaceId|
        changed.workspace_holds(i, window) == #[trigger] state.workspace_holds(i, window) by {}
    assert(changed.orderly());
    decorating_keeps_places(changed, space::stack(changed.elements), changed.decoration());
    laws::telling_stays_orderly(changed, changed.decorations_applied());
    laws::layout_stays_orderly(changed.decorations_applied());
}

proof fn decorating_keeps_floating(state: State, list: Seq<SurfaceId>, mode: DecorationMode)
    ensures
        state.decorations_wanted(list, mode).floating == state.floating,
    decreases list.len(),
{
    if list.len() > 0 {
        decorating_keeps_floating(state, list.drop_last(), mode);
        let before = state.decorations_wanted(list.drop_last(), mode);
        let after = before.decoration_wanted(list.last(), mode);
        reveal(State::decoration_wanted);
        assert(after.floating == before.floating);
        assert(state.decorations_wanted(list, mode) == after);
    }
}

/// Once the configuration is read anew, the tiled windows of the current workspace have the tiles of
/// the arrangement for as many as they are, in what is free of the output.
pub proof fn reload_fills_tiles(
    state: State,
    found: Settings,
    taken: Seq<bool>,
    area: Rectangle,
    tiles: Seq<WindowGeometry>,
    at: int,
)
    requires
        state.orderly(),
        state.all_alive(),
        state.slot(state.current as int) is None,
        state.is_free(area),
        state.arranges(area, state.to_tile(None).len(), tiles),
        0 <= at < state.to_tile(None).len(),
        at < tiles.len(),
    ensures
        state.reloaded(found, taken).1 is Ok,
        state.reloaded(found, taken).0.fills_tile(state.to_tile(None)[at], area, tiles[at]),
{
    let changed = State { settings: satellite::with_display(found, taken), ..state };
    assert forall|window: SurfaceId| changed.toplevel(window) == #[trigger] state.toplevel(
        window,
    ) by {}
    assert forall|i: int, window: SurfaceId|
        changed.workspace_holds(i, window) == #[trigger] state.workspace_holds(i, window) by {}
    assert(changed.orderly());
    assert(changed.all_alive()) by {
        assert forall|window: SurfaceId|
            #![trigger changed.toplevel(window)]
            lists::listed(changed.mapped, window) || lists::listed(
                changed.unmapped,
                window,
            ) implies changed.toplevel(window).live by {
            assert(state.toplevel(window).live);
        }
    }
    let stack = space::stack(changed.elements);
    decorating_keeps_places(changed, stack, changed.decoration());
    decorating_keeps_floating(changed, stack, changed.decoration());
    let applied = changed.decorations_applied();
    laws::telling_stays_orderly(changed, applied);
    keeping::telling_keeps(changed, applied);
    assert forall|window: SurfaceId| applied.toplevel(window).has_buffer == #[trigger] state.toplevel(
        window,
    ).has_buffer by {
        assert(applied.toplevel(window).has_buffer == changed.toplevel(window).has_buffer);
    }
    tiling_laws::same_windows_are_tiled(state, applied);
    tiling_laws::arrangement_stays(state, applied, area, applied.to_tile(None).len(), tiles);
    tiling_laws::layout_fills_tiles(applied, area, tiles, at);
}

/// The programs that come with the session are started once: another start of the session starts none
/// of them.
pub proof fn autostart_runs_once(found: Settings, picked: bool, index: int)
    requires
        0 <= index < startup_tasks(found, picked, true).len(),
    ensures
        !(startup_tasks(found, picked, true)[index] is Spawn),
{
}

} // verus!
