//! Laws of the fullscreen toggle: it asks the focused window's client for the other state, and once
//! the client has followed, the window fills its workspace or no longer does.

use crate::geometry;
use crate::geometry::{Rectangle, WindowGeometry};
use crate::state::fullscreen_laws;
use crate::state::keeping;
use crate::state::laws;
use crate::state::layout;
use crate::state::lists;
use crate::state::lists::SurfaceId;
use crate::state::raven::State;
use crate::state::settling;
use crate::state::space;
use crate::state::space::Output;
use crate::state::staying;
use crate::state::toplevel::{Configure, OutputId, PendingFullscreenTransition, Toplevel};
use crate::state::windows;
use vstd::prelude::*;

verus! {

impl State {
    /// Whether no workspace is filled by a window.
    pub open spec fn fills_none(self, window: SurfaceId) -> bool {
        forall|i: int|
            0 <= i < self.owners.len() && (#[trigger] self.owners[i]) is Some
                ==> self.owners[i].unwrap().surface != window
    }

    /// Whether no workspace is filled by a window, and its client is not asked for fullscreen.
    pub open spec fn is_windowed(self, window: SurfaceId) -> bool {
        self.fills_none(window) && !self.toplevel(window).pending.fullscreen
    }

    /// Whether the first output has this geometry and is the one that a window would be fullscreen
    /// on: none is asked for, and the window overlaps no other.
    pub open spec fn shows_on(self, window: SurfaceId, whole: Rectangle) -> bool {
        &&& self.outputs.len() > 0
        &&& self.outputs[0].geometry == Some(whole)
        &&& self.toplevel(window).overlaps is None || self.toplevel(window).overlaps == Some(
            self.outputs[0].id,
        )
    }
}

proof fn burying_stays_windowed(state: State, dead: Seq<SurfaceId>, window: SurfaceId)
    requires
        state.is_windowed(window),
    ensures
        state.all_buried(dead).is_windowed(window),
    decreases dead.len(),
{
    if dead.len() > 0 {
        burying_stays_windowed(state, dead.drop_last(), window);
        let before = state.all_buried(dead.drop_last());
        let after = before.buried(dead.last());
        assert forall|i: int|
            0 <= i < after.owners.len() && (#[trigger] after.owners[i]) is Some implies
            after.owners[i].unwrap().surface != window by {
            assert(before.owners[i] is Some);
        }
    }
}

proof fn raising_stays_windowed(state: State, raised: SurfaceId, window: SurfaceId)
    requires
        state.is_windowed(window),
    ensures
        state.raised(raised).is_windowed(window),
{
    let after = state.raised(raised);
    settling::activating_keeps_sizes(
        state.toplevels,
        space::stack(after.elements),
        Some(raised),
        window,
    );
    assert(after.toplevel(window) == windows::known(after.toplevels, window));
    assert(state.toplevel(window) == windows::known(state.toplevels, window));
    assert(after.owners == state.owners);
}

proof fn raising_each_stays_windowed(state: State, list: Seq<SurfaceId>, window: SurfaceId)
    requires
        state.is_windowed(window),
    ensures
        state.each_raised(list).is_windowed(window),
    decreases list.len(),
{
    if list.len() > 0 {
        raising_each_stays_windowed(state, list.drop_last(), window);
        raising_stays_windowed(state.each_raised(list.drop_last()), list.last(), window);
    }
}

proof fn restacking_stays_windowed(state: State, window: SurfaceId)
    requires
        state.is_windowed(window),
    ensures
        state.restacked().is_windowed(window),
{
    let stack = space::stack(state.elements);
    let tiled = state.sorted_out(stack, false);
    raising_each_stays_windowed(state, tiled, window);
    raising_each_stays_windowed(
        state.each_raised(tiled),
        state.sorted_out(stack, true),
        window,
    );
}

proof fn tiles_stay_windowed(
    state: State,
    windows: Seq<SurfaceId>,
    area: Rectangle,
    tiles: Seq<WindowGeometry>,
    count: nat,
    window: SurfaceId,
)
    requires
        state.is_windowed(window),
    ensures
        state.tiles_laid_out(windows, area, tiles, count).is_windowed(window),
    decreases count,
{
    if count > 0 {
        let fewer = (count - 1) as nat;
        tiles_stay_windowed(state, windows, area, tiles, fewer, window);
        let before = state.tiles_laid_out(windows, area, tiles, fewer);
        let after = state.tiles_laid_out(windows, area, tiles, count);
        assert(after.owners == before.owners);
    }
}

proof fn clearing_stays_windowed(state: State, workspace: int, window: SurfaceId)
    requires
        state.is_windowed(window),
    ensures
        state.owner_cleared(workspace, true).is_windowed(window),
{
    let after = state.owner_cleared(workspace, true);
    assert forall|i: int|
        0 <= i < after.owners.len() && (#[trigger] after.owners[i]) is Some implies
        after.owners[i].unwrap().surface != window by {
        assert(state.owners[i] is Some);
    }
}

proof fn fullscreen_stays_windowed(state: State, output: OutputId, window: SurfaceId)
    requires
        state.is_windowed(window),
    ensures
        state.fullscreen_laid_out(output).0.is_windowed(window),
{
    clearing_stays_windowed(state, state.current as int, window);
    if let Some(owner) = state.owner_window(state.current as int) {
        assert(state.owners[state.current as int] is Some);
        assert(owner != window);
        if let Some(target) = state.exclusive_rect(owner) {
            let given = state.with_assigned(owner, target);
            let told = given.fullscreen_asked(owner, true, Some(target));
            assert(given.is_windowed(window));
            assert(told.is_windowed(window));
            let shown = given.mapped_to(owner, target, false);
            let moved = told.mapped_to(owner, target, false);
            assert(shown.is_windowed(window));
            assert(moved.is_windowed(window));
            raising_stays_windowed(given, owner, window);
            raising_stays_windowed(told, owner, window);
            raising_stays_windowed(shown, owner, window);
            raising_stays_windowed(moved, owner, window);
        }
    }
}

proof fn windows_stay_windowed(
    state: State,
    windows: Seq<SurfaceId>,
    area: Rectangle,
    window: SurfaceId,
)
    requires
        space::one_each(state.elements),
        state.is_windowed(window),
    ensures
        state.windows_laid_out(windows, area).is_windowed(window),
{
    settling::floating_keeps_rest(state, state.sorted_out(windows, true));
    let placed = state.floating_laid_out(state.sorted_out(windows, true));
    assert(placed.is_windowed(window));
    let tiled = placed.sorted_out(windows, false);
    let tiles = space::tiles_for(placed.layouts, area.size, tiled.len());
    let count = if tiled.len() < tiles.len() {
        tiled.len()
    } else {
        tiles.len()
    };
    tiles_stay_windowed(placed, tiled, area, tiles, count, window);
    restacking_stays_windowed(placed, window);
    restacking_stays_windowed(placed.tiles_laid_out(tiled, area, tiles, count), window);
}

/// A layout asks no window for fullscreen that fills no workspace.
pub proof fn layout_stays_windowed(state: State, window: SurfaceId)
    requires
        state.orderly(),
        state.is_windowed(window),
    ensures
        state.laid_out().0.is_windowed(window),
{
    reveal(State::laid_out);
    laws::pruning_stays_orderly(state);
    burying_stays_windowed(state, state.dead_windows(), window);
    let pruned = state.pruned();
    let list = pruned.mapped[pruned.current as int];
    settling::showing_stacks(pruned, list);
    let shown = pruned.all_shown(list);
    layout::singles_stay(shown);
    assert(shown.is_windowed(window));
    let windows = shown.buffered(space::stack(shown.elements));
    if shown.outputs.len() > 0 {
        if let Some(whole) = shown.outputs[0].geometry {
            fullscreen_stays_windowed(shown, shown.outputs[0].id, window);
            let (owned, done) = shown.fullscreen_laid_out(shown.outputs[0].id);
            let area = geometry::usable(shown.outputs[0].work_area, whole);
            if !done {
                fullscreen_stays_single(shown, shown.outputs[0].id);
                windows_stay_windowed(owned, windows, area, window);
            }
        }
    }
}

proof fn fullscreen_stays_single(state: State, output: OutputId)
    requires
        space::one_each(state.elements),
    ensures
        !state.fullscreen_laid_out(output).1 ==> space::one_each(
            state.fullscreen_laid_out(output).0.elements,
        ),
{
}

/// A window in the slot of a workspace has its own fullscreen there.
pub proof fn owner_owns(state: State, window: SurfaceId, index: int)
    requires
        state.orderly(),
        0 <= index < state.owners.len(),
        state.owners[index] is Some,
        state.owners[index].unwrap().surface == window,
    ensures
        state.owns_workspace(window),
        state.workspace_of(window) == Some(index as usize),
        state.has_window(window),
{
    assert(state.workspace_holds(index, window));
    keeping::holder_is_only(state, window, index);
}

proof fn leaving_fills_none(state: State, window: SurfaceId)
    requires
        state.orderly(),
        state.owns_workspace(window),
    ensures
        state.exit_finalized(window).fills_none(window),
        state.exit_finalized(window).toplevels == state.toplevels,
        state.exit_finalized(window).transitions == state.transitions.remove(window),
{
    reveal(State::exit_finalized);
    let clear = state.transition_cleared(window);
    let index = state.workspace_of(window).unwrap() as int;
    assert(clear.slot(index) == state.slot(index));
    assert(clear.owns_workspace(window));
    let left = clear.fullscreen_left(window);
    assert(left.owners == state.owners.update(index, None));
    let after = state.exit_finalized(window);
    assert(after.owners == left.owners);
    assert forall|i: int|
        0 <= i < after.owners.len() && (#[trigger] after.owners[i]) is Some implies
        after.owners[i].unwrap().surface != window by {
        assert(i != index);
        assert(state.owners[i] is Some);
        assert(state.owners[index] is Some);
    }
}

proof fn exit_asks_windowed(state: State, window: SurfaceId)
    ensures
        !state.exit_asked(window).toplevel(window).pending.fullscreen,
        state.exit_asked(window).transitions == state.transitions,
        state.exit_asked(window).keeps_places(state),
        state.exit_tells(window) ==> state.exit_asked(window).configures.len()
            == state.configures.len() + 1 && state.exit_asked(window).configures.last().surface
            == window && !state.exit_asked(window).configures.last().state.fullscreen
            && state.exit_asked(window).configures.drop_last() == state.configures,
        state.toplevel(window).configured && state.toplevel(window).pending.fullscreen
            && state.toplevel(window).sent.fullscreen ==> state.exit_tells(window),
{
    fullscreen_laws::asking_fullscreen_keeps_places(state, window, false, None);
    let size = match state.layout_target(window) {
        Some((rect, bounds)) => (rect.size, bounds),
        None => (geometry::Size { w: 0, h: 0 }, geometry::Size { w: 0, h: 0 }),
    };
    fullscreen_laws::asking_layout_keeps_places(state, window, size.0, size.1);
    let after = state.exit_asked(window);
    if state.exit_tells(window) {
        assert(after.configures.drop_last() =~= state.configures);
    }
}

proof fn layout_ends_fullscreen(state: State, window: SurfaceId)
    requires
        state.orderly(),
        state.is_windowed(window),
        !state.transitions.contains_key(window),
    ensures
        state.laid_out().0.is_windowed(window),
        !state.laid_out().0.transitions.contains_key(window),
{
    layout_stays_windowed(state, window);
    staying::layout_keeps_notes(state);
    pruning_notes_nothing(state, state.dead_windows(), window);
}

/// Toggling fullscreen of the focused window that fills its workspace: the window no longer fills it,
/// or a change out of fullscreen is noted for it; its client is asked for a state that is not
/// fullscreen. A client that was told to be fullscreen is told that it no longer is.
pub proof fn toggle_leaves_fullscreen(state: State, window: SurfaceId, index: int)
    requires
        state.orderly(),
        state.keyboard_focus == Some(window),
        0 <= index < state.owners.len(),
        state.owners[index] is Some,
        state.owners[index].unwrap().surface == window,
    ensures
        ({
            let after = state.fullscreen_toggled().0;
            &&& (after.fills_none(window) && !after.transitions.contains_key(window)) || (
            after.transitions.contains_key(window) && after.transitions[window]
                == PendingFullscreenTransition::Exit)
            &&& !after.toplevel(window).pending.fullscreen
            &&& state.toplevel(window).configured && state.toplevel(window).pending.fullscreen
                && state.toplevel(window).sent.fullscreen ==> after.configures.len()
                == state.configures.len() + 1 && after.configures.last().surface == window
                && !after.configures.last().state.fullscreen
        }),
{
    reveal(State::fullscreen_toggled);
    reveal(State::exit_requested);
    reveal(State::exits_at_once);
    owner_owns(state, window, index);
    let noted = State {
        transitions: state.transitions.insert(window, PendingFullscreenTransition::Exit),
        ..state
    };
    exit_asks_windowed(noted, window);
    let asked = noted.exit_asked(window);
    assert(noted.toplevel(window) == state.toplevel(window));
    if !noted.exit_tells(window) && asked.on_screen(window) {
        assert(noted.keeps_places(state));
        laws::telling_stays_orderly(state, noted);
        laws::telling_stays_orderly(noted, asked);
        let clear = asked.transition_cleared(window);
        assert(clear.keeps_places(asked));
        laws::telling_stays_orderly(asked, clear);
        assert(clear.owners == state.owners);
        owner_owns(clear, window, index);
        leaving_fills_none(clear, window);
        let done = clear.exit_finalized(window);
        assert(done.is_windowed(window));
        fullscreen_laws::exit_request_stays_orderly(state, window);
        layout_ends_fullscreen(done, window);
    }
}

/// A window that waits to leave fullscreen no longer fills a workspace once nothing is noted for it,
/// and nothing is once its client has committed the size that it goes back to.
pub proof fn followed_exit_ends_fullscreen(state: State, window: SurfaceId)
    requires
        state.orderly(),
        state.transitions.contains_key(window),
        state.transitions[window] == PendingFullscreenTransition::Exit,
    ensures
        ({
            let after = state.transition_applied(window);
            &&& after.transitions.contains_key(window) || after.fills_none(window)
            &&& state.on_screen(window) && (state.restore_rect(window) matches Some(rect)
                ==> state.toplevel(window).committed_size == Some(rect.size))
                ==> !after.transitions.contains_key(window)
        }),
{
    reveal(State::transition_applied);
    let clear = state.transition_cleared(window);
    assert(clear.keeps_places(state));
    laws::telling_stays_orderly(state, clear);
    if !clear.owns_workspace(window) || !state.has_window(window) {
        assert forall|i: int|
            0 <= i < clear.owners.len() && (#[trigger] clear.owners[i]) is Some implies
            clear.owners[i].unwrap().surface != window by {
            if clear.owners[i].unwrap().surface == window {
                owner_owns(clear, window, i);
            }
        }
    } else if state.on_screen(window) {
        leaving_fills_none(clear, window);
        fullscreen_laws::finalizing_stays_orderly(clear, window);
        let done = clear.exit_finalized(window);
        assert(done.orderly());
        layout_fills_none(done, window);
        staying::layout_keeps_notes(done);
        staying::pruning_keeps_live(done);
        pruning_notes_nothing(done, done.dead_windows(), window);
    }
    if state.has_window(window) && state.on_screen(window) {
        if let Some(rect) = state.restore_rect(window) {
            if state.toplevel(window).committed_size == Some(rect.size) {
                assert(state.transition_ready(window, PendingFullscreenTransition::Exit));
            }
        } else {
            assert(state.transition_ready(window, PendingFullscreenTransition::Exit));
        }
    }
}

proof fn pruning_notes_nothing(state: State, dead: Seq<SurfaceId>, window: SurfaceId)
    requires
        !state.transitions.contains_key(window),
    ensures
        !state.all_buried(dead).transitions.contains_key(window),
    decreases dead.len(),
{
    if dead.len() > 0 {
        pruning_notes_nothing(state, dead.drop_last(), window);
    }
}

/// A layout makes no window fill a workspace.
pub proof fn layout_fills_none(state: State, window: SurfaceId)
    requires
        state.orderly(),
        state.fills_none(window),
    ensures
        state.laid_out().0.fills_none(window),
{
    reveal(State::laid_out);
    laws::pruning_stays_orderly(state);
    burying_fills_none(state, state.dead_windows(), window);
    let pruned = state.pruned();
    let list = pruned.mapped[pruned.current as int];
    settling::showing_stacks(pruned, list);
    let shown = pruned.all_shown(list);
    layout::singles_stay(shown);
    assert(shown.fills_none(window));
    let windows = shown.buffered(space::stack(shown.elements));
    if shown.outputs.len() > 0 {
        if let Some(whole) = shown.outputs[0].geometry {
            let (owned, done) = shown.fullscreen_laid_out(shown.outputs[0].id);
            fullscreen_fills_none(shown, shown.outputs[0].id, window);
            let area = geometry::usable(shown.outputs[0].work_area, whole);
            if !done {
                fullscreen_stays_single(shown, shown.outputs[0].id);
                windows_keep_owners(owned, windows, area);
            }
        }
    }
}

proof fn burying_fills_none(state: State, dead: Seq<SurfaceId>, window: SurfaceId)
    requires
        state.fills_none(window),
    ensures
        state.all_buried(dead).fills_none(window),
    decreases dead.len(),
{
    if dead.len() > 0 {
        burying_fills_none(state, dead.drop_last(), window);
        let before = state.all_buried(dead.drop_last());
        let after = before.buried(dead.last());
        assert forall|i: int|
            0 <= i < after.owners.len() && (#[trigger] after.owners[i]) is Some implies
            after.owners[i].unwrap().surface != window by {
            assert(before.owners[i] is Some);
        }
    }
}

proof fn fullscreen_fills_none(state: State, output: OutputId, window: SurfaceId)
    requires
        state.fills_none(window),
    ensures
        state.fullscreen_laid_out(output).0.fills_none(window),
{
    let after = state.fullscreen_laid_out(output).0;
    assert forall|i: int|
        0 <= i < after.owners.len() && (#[trigger] after.owners[i]) is Some implies
        after.owners[i].unwrap().surface != window by {
        assert(state.owners[i] is Some);
    }
}

proof fn each_raised_keeps_owners(state: State, list: Seq<SurfaceId>)
    ensures
        state.each_raised(list).owners == state.owners,
    decreases list.len(),
{
    if list.len() > 0 {
        each_raised_keeps_owners(state, list.drop_last());
    }
}

proof fn restacking_keeps_owners(state: State)
    ensures
        state.restacked().owners == state.owners,
{
    let stack = space::stack(state.elements);
    let tiled = state.sorted_out(stack, false);
    each_raised_keeps_owners(state, tiled);
    each_raised_keeps_owners(state.each_raised(tiled), state.sorted_out(stack, true));
}

proof fn tiles_keep_owners(
    state: State,
    windows: Seq<SurfaceId>,
    area: Rectangle,
    tiles: Seq<WindowGeometry>,
    count: nat,
)
    ensures
        state.tiles_laid_out(windows, area, tiles, count).owners == state.owners,
    decreases count,
{
    if count > 0 {
        tiles_keep_owners(state, windows, area, tiles, (count - 1) as nat);
    }
}

proof fn windows_keep_owners(state: State, windows: Seq<SurfaceId>, area: Rectangle)
    requires
        space::one_each(state.elements),
    ensures
        state.windows_laid_out(windows, area).owners == state.owners,
{
    settling::floating_keeps_rest(state, state.sorted_out(windows, true));
    let placed = state.floating_laid_out(state.sorted_out(windows, true));
    let tiled = placed.sorted_out(windows, false);
    let tiles = space::tiles_for(placed.layouts, area.size, tiled.len());
    let count = if tiled.len() < tiles.len() {
        tiled.len()
    } else {
        tiles.len()
    };
    tiles_keep_owners(placed, tiled, area, tiles, count);
    restacking_keeps_owners(placed);
    restacking_keeps_owners(placed.tiles_laid_out(tiled, area, tiles, count));
}

/// Two toggles that the client follows: once the first has made the window fill its workspace and
/// the client has followed the second, the window fills none. What the client commits meanwhile is
/// `facts`.
pub proof fn second_toggle_ends_fullscreen(
    state: State,
    window: SurfaceId,
    index: int,
    facts: Toplevel,
)
    requires
        state.orderly(),
        state.keyboard_focus == Some(window),
        0 <= index < state.owners.len(),
        state.owners[index] is Some,
        state.owners[index].unwrap().surface == window,
        facts.live ==> state.fullscreen_toggled().0.toplevel(window).live,
    ensures
        ({
            let told = state.fullscreen_toggled().0.with_toplevel(window, facts);
            let followed = told.transition_applied(window);
            followed.fills_none(window) || followed.transitions.contains_key(window)
        }),
        ({
            let told = state.fullscreen_toggled().0.with_toplevel(window, facts);
            let followed = told.transition_applied(window);
            told.transitions.contains_key(window) && told.transitions[window]
                == PendingFullscreenTransition::Exit && told.on_screen(window) && (
            told.restore_rect(window) matches Some(rect) ==> facts.committed_size == Some(
                rect.size,
            )) ==> followed.fills_none(window)
        }),
{
    toggle_leaves_fullscreen(state, window, index);
    fullscreen_laws::fullscreen_toggle_stays_orderly(state);
    let after = state.fullscreen_toggled().0;
    let told = after.with_toplevel(window, facts);
    laws::facts_stay_orderly(after, window, facts);
    if told.transitions.contains_key(window) && told.transitions[window]
        == PendingFullscreenTransition::Exit {
        followed_exit_ends_fullscreen(told, window);
    } else {
        assert(told.fills_none(window));
        reveal(State::transition_applied);
    }
}

/// Toggling fullscreen of the focused window that does not fill its workspace, where its client was
/// told another state: a change into fullscreen is noted for it, and its client is told to be
/// fullscreen, in the size of the output.
pub proof fn toggle_asks_fullscreen(state: State, window: SurfaceId, whole: Rectangle)
    requires
        state.orderly(),
        state.keyboard_focus == Some(window),
        state.has_window(window),
        state.fills_none(window),
        state.toplevel(window).configured,
        !state.toplevel(window).pending.fullscreen,
        !state.toplevel(window).sent.fullscreen,
        state.shows_on(window, whole),
    ensures
        ({
            let after = state.fullscreen_toggled().0;
            &&& after.transitions.contains_key(window)
            &&& after.transitions[window] == (PendingFullscreenTransition::Enter {
                requested_output: None,
            })
            &&& after.toplevel(window).pending.fullscreen
            &&& !after.toplevel(window).pending.maximized
            &&& after.toplevel(window).pending.size == Some(whole.size)
            &&& after.configures.len() == state.configures.len() + 1
            &&& after.configures.last() == (Configure {
                surface: window,
                state: after.toplevel(window).pending,
            })
            &&& after.elements == state.elements
            &&& after.owners == state.owners
            &&& state.fullscreen_toggled().1 is Ok
        }),
{
    reveal(State::fullscreen_toggled);
    reveal(State::enter_requested);
    reveal(State::enters_at_once);
    keeping::window_has_workspace(state, window);
    let index = state.workspace_of(window).unwrap() as int;
    assert(!state.owns_workspace(window)) by {
        if state.owns_workspace(window) {
            assert(state.owners[index] is Some);
        }
    }
    let noted = state.enter_noted(window, None);
    assert(noted.toplevel(window) == state.toplevel(window));
    assert(noted.owners == state.owners && noted.mapped == state.mapped && noted.unmapped
        == state.unmapped);
    assert(!noted.owns_workspace(window));
    assert(noted.preferred_output(window) == Some(state.outputs[0].id));
    first_output_is_found(state.outputs);
    assert(noted.enter_rect(window, None) == Some(whole));
    let asked = state.enter_asked(window, None);
    assert(state.enter_tells(window, None));
}

/// The geometry of the first output is found by its number.
pub proof fn first_output_is_found(outputs: Seq<Output>)
    requires
        outputs.len() > 0,
    ensures
        space::geometry_of(outputs, outputs[0].id) == outputs[0].geometry,
{
}

/// A layout of a workspace that is filled by a window shows it on the whole of the first output, above
/// all others, with the output's size or asked for it.
pub proof fn layout_fills_output(state: State, window: SurfaceId, whole: Rectangle)
    requires
        state.orderly(),
        state.all_alive(),
        state.mapped[state.current as int].contains(window),
        state.toplevel(window).has_buffer,
        state.slot(state.current as int) is Some,
        state.slot(state.current as int).unwrap().surface == window,
        state.slot(state.current as int).unwrap().output is None || state.slot(
            state.current as int,
        ).unwrap().output == Some(state.outputs[0].id),
        state.shows_on(window, whole),
    ensures
        ({
            let after = state.laid_out().0;
            &&& state.laid_out().1 is Ok
            &&& after.assigned.contains_key(window)
            &&& after.assigned[window] == whole
            &&& after.stands(window, whole.loc)
            &&& after.elements.last().window == window
            &&& after.toplevel(window).geometry == whole.size || after.toplevel(
                window,
            ).pending.size == Some(whole.size)
            &&& after.owners == state.owners
            &&& state.toplevel(window).pending.fullscreen ==> after.toplevel(
                window,
            ).pending.fullscreen
        }),
{
    reveal(State::laid_out);
    laws::pruning_stays_orderly(state);
    let list = state.mapped[state.current as int];
    settling::showing_stacks(state, list);
    let shown = state.all_shown(list);
    layout::singles_stay(shown);
    assert(lists::listed(state.mapped, window));
    assert(state.workspace_holds(state.current as int, window));
    keeping::holder_is_only(state, window, state.current as int);
    assert(state.toplevel(window).live);
    let stack = space::stack(shown.elements);
    assert(stack.contains(window)) by {
        shown_is_on_stack(state, list, window);
    }
    let windows = shown.buffered(stack);
    assert(windows.contains(window)) by {
        settling::stack_is_single(shown.elements);
        settling::buffered_is_filter(shown, stack);
        settling::filter_keeps_single(stack, |other: SurfaceId| shown.toplevel(other).has_buffer);
    }
    first_output_is_found(state.outputs);
    assert(shown.owner_window(shown.current as int) == Some(window));
    assert(shown.owns_workspace(window));
    assert(shown.preferred_output(window) == Some(state.outputs[0].id));
    assert(shown.exclusive_rect(window) == Some(whole));
    let after = shown.owner_laid_out(window, whole);
    assert(state.laid_out().0 == after);
    owner_settles(shown, window, whole);
}

proof fn shown_is_on_stack(state: State, list: Seq<SurfaceId>, window: SurfaceId)
    requires
        space::one_each(state.elements),
        list.no_duplicates(),
        list.contains(window),
        !state.unmapped_marks.contains(window),
        state.toplevel(window).has_buffer,
    ensures
        space::stack(state.all_shown(list).elements).contains(window),
{
    settling::showing_stacks(state, list);
    let coming = |one: SurfaceId|
        !state.on_screen(one) && !state.unmapped_marks.contains(one) && state.toplevel(
            one,
        ).has_buffer;
    settling::filters_agree(
        list,
        |one: SurfaceId|
            !state.on_screen(one) && !state.unmapped_marks.contains(one) && state.toplevel(
                one,
            ).has_buffer,
        coming,
    );
    settling::filter_keeps_single(list, coming);
    let stack = space::stack(state.elements);
    let more = list.filter(coming);
    let all = space::stack(state.all_shown(list).elements);
    assert(all == stack + more);
    space::place_of_finds(state.elements, window);
    if state.on_screen(window) {
        let k = choose|k: int| 0 <= k < stack.len() && stack[k] == window;
        assert(all[k] == window);
    } else {
        assert(more.contains(window));
        let k = choose|k: int| 0 <= k < more.len() && more[k] == window;
        assert(all[stack.len() + k] == window);
    }
}

proof fn owner_settles(state: State, window: SurfaceId, target: Rectangle)
    requires
        space::one_each(state.elements),
    ensures
        state.owner_laid_out(window, target).settled_in(window, target),
        state.owner_laid_out(window, target).elements.last().window == window,
        state.owner_laid_out(window, target).owners == state.owners,
        state.toplevel(window).pending.fullscreen ==> state.owner_laid_out(window, target).toplevel(
            window,
        ).pending.fullscreen,
{
    let given = state.with_assigned(window, target);
    let told = given.fullscreen_asked(window, true, Some(target));
    settling::mapping_settles(given, window, target);
    settling::mapping_settles(told, window, target);
    settling::found_stands(state.elements, window);
    let place = space::place_of(state.elements, window);
    let resize = state.toplevel(window).geometry != target.size;
    let asked = if resize || state.assigned_rect(window) != Some(target) {
        told
    } else {
        given
    };
    let shown = if place is None || resize || place != Some(target.loc) {
        asked.mapped_to(window, target, false)
    } else {
        asked
    };
    assert(asked.elements == state.elements);
    assert(shown.settled_in(window, target));
    assert(space::one_each(shown.elements));
    settling::raising_leaves(shown, window, window, target);
    settling::standing_is_found(shown.elements, window, target.loc);
    let after = shown.raised(window);
    settling::activating_keeps_sizes(
        shown.toplevels,
        space::stack(after.elements),
        Some(window),
        window,
    );
    assert(after.toplevel(window) == windows::known(after.toplevels, window));
    assert(shown.toplevel(window) == windows::known(shown.toplevels, window));
}

} // verus!
