//! Laws of fullscreen and focus: their events leave the state orderly, and a window that enters
//! fullscreen takes it from its own workspace alone.

use crate::state::keeping;
use crate::state::laws;
use crate::state::lists;
use crate::state::lists::SurfaceId;
use crate::state::raven::State;
use crate::state::space;
use crate::state::toplevel::{
    FullscreenSlot, OutputId, PendingFullscreenTransition, Toplevel, ToplevelState,
    WindowFullscreenMode,
};
use crate::state::windows;
use vstd::prelude::*;

verus! {

/// Asking a client for a change of fullscreen.
pub proof fn asking_fullscreen_keeps_places(
    state: State,
    window: SurfaceId,
    fullscreen: bool,
    target: Option<crate::geometry::Rectangle>,
)
    ensures
        state.fullscreen_asked(window, fullscreen, target).keeps_places(state),
{
    keeping::asking_keeps_places(
        state,
        window,
        state.protocol_pending(window, fullscreen, target),
        state.told_fallback(window, target),
    );
}

/// Asking a client to be maximized, tiled, or neither.
pub proof fn asking_layout_keeps_places(
    state: State,
    window: SurfaceId,
    size: crate::geometry::Size,
    bounds: crate::geometry::Size,
)
    ensures
        state.maximized_asked(window).keeps_places(state),
        state.tiled_asked(window, size, bounds).keeps_places(state),
        state.restored_asked(window).keeps_places(state),
{
    keeping::asking_keeps_places(
        state,
        window,
        state.maximized_pending(window),
        state.told_fallback(window, state.work_area(window)),
    );
    keeping::asking_keeps_places(
        state,
        window,
        state.tiled_pending(window, size, bounds),
        Some(size),
    );
    keeping::asking_keeps_places(state, window, state.restored_pending(window), None);
    let asked = state.with_pending(window, state.restored_pending(window));
    keeping::asking_keeps_places(asked, window, state.restored_pending(window), None);
    assert(asked.configured_if_changed(window).keeps_places(state));
}

/// Taking a window's fullscreen away.
pub proof fn leaving_stays_orderly(state: State, window: SurfaceId)
    requires
        state.orderly(),
    ensures
        state.fullscreen_left(window).orderly_like(state),
        state.fullscreen_left(window).elements == state.elements,
{
    let workspace = match state.workspace_of(window) {
        Some(index) => index,
        None => state.current,
    };
    keeping::clearing_owner_keeps(state, workspace as int, false);
    let disowned = State { owners: windows::disowned(state.owners, window), ..state };
    keeping::fewer_owners_keep(state, disowned);
    laws::orderly_by_lists(state, state.fullscreen_left(window));
}

/// A window that is made fullscreen has the fullscreen of its workspace; the other workspaces keep
/// their fullscreen windows.
pub proof fn fullscreen_is_per_workspace(
    state: State,
    window: SurfaceId,
    requested: Option<OutputId>,
)
    requires
        state.orderly(),
        state.has_window(window),
    ensures
        state.fullscreen_set(window, true, requested).owners == state.owners.update(
            state.workspace_of(window).unwrap() as int,
            Some(
                FullscreenSlot {
                    surface: window,
                    output: state.resolved_output(window, requested),
                },
            ),
        ),
        state.fullscreen_set(window, true, requested).owns_workspace(window),
{
    keeping::window_has_workspace(state, window);
    let workspace = state.workspace_of(window).unwrap() as int;
    let output = state.resolved_output(window, requested);
    keeping::assigning_owner_keeps(state, workspace, window, output);
    let owned = state.owner_assigned(workspace, window, output);
    asking_fullscreen_keeps_places(owned, window, true, owned.exclusive_rect(window));
    lists::index_of_finds(state.mapped, window);
    lists::index_of_finds(state.unmapped, window);
}

/// Whether a window is fullscreen follows from its workspace, whatever its client was told or has
/// committed so far.
pub proof fn commits_do_not_decide_fullscreen(
    state: State,
    toplevels: Map<SurfaceId, Toplevel>,
    window: SurfaceId,
)
    ensures
        (State { toplevels, ..state }).exclusive_mode(window) == WindowFullscreenMode::Fullscreen
            <==> state.exclusive_mode(window) == WindowFullscreenMode::Fullscreen,
{
    let told = State { toplevels, ..state };
    assert(told.workspace_of(window) == state.workspace_of(window));
}

/// Making a window fullscreen or not.
pub proof fn setting_stays_orderly(
    state: State,
    window: SurfaceId,
    fullscreen: bool,
    requested: Option<OutputId>,
)
    requires
        state.orderly(),
        state.has_window(window),
    ensures
        state.fullscreen_set(window, fullscreen, requested).orderly_like(state),
        state.fullscreen_set(window, fullscreen, requested).elements == state.elements,
{
    keeping::window_has_workspace(state, window);
    let workspace = state.workspace_of(window).unwrap() as int;
    if fullscreen {
        let output = state.resolved_output(window, requested);
        keeping::assigning_owner_keeps(state, workspace, window, output);
        let owned = state.owner_assigned(workspace, window, output);
        laws::orderly_by_lists(state, owned);
        asking_fullscreen_keeps_places(owned, window, true, owned.exclusive_rect(window));
        laws::telling_stays_orderly(owned, state.fullscreen_set(window, true, requested));
        laws::keeping_chains(state, owned, state.fullscreen_set(window, true, requested));
    } else {
        leaving_stays_orderly(state, window);
        let left = state.fullscreen_left(window);
        asking_fullscreen_keeps_places(left, window, false, None);
        laws::telling_stays_orderly(left, state.fullscreen_set(window, false, requested));
        laws::keeping_chains(state, left, state.fullscreen_set(window, false, requested));
    }
}

/// Making a window maximized or not.
pub proof fn maximizing_keeps_places(state: State, window: SurfaceId, maximized: bool)
    ensures
        state.maximized_set(window, maximized).keeps_places(state),
{
    let noted = State {
        maximized: if maximized {
            state.maximized.insert(window)
        } else {
            state.maximized.remove(window)
        },
        ..state
    };
    assert(noted.keeps_places(state));
    asking_layout_keeps_places(
        noted,
        window,
        crate::geometry::Size { w: 0, h: 0 },
        crate::geometry::Size { w: 0, h: 0 },
    );
    laws::keeping_chains(state, noted, state.maximized_set(window, maximized));
}

/// Entering fullscreen.
pub proof fn entering_stays_orderly(state: State, window: SurfaceId, requested: Option<OutputId>)
    requires
        state.orderly(),
        state.has_window(window),
    ensures
        state.fullscreen_entered(window, requested).orderly_like(state),
        state.fullscreen_entered(window, requested).elements == state.elements,
        state.fullscreen_entered(window, requested).owns_workspace(window),
        forall|i: int|
            0 <= i < state.owners.len() && Some(i as usize) != state.workspace_of(window)
                ==> #[trigger] state.fullscreen_entered(window, requested).owners[i]
                == state.owners[i],
{
    reveal(State::fullscreen_entered);
    let single = state.with_floating(window, false);
    let clear = State {
        recenter: single.recenter.remove(window),
        ..single.transition_cleared(window)
    };
    assert(clear.keeps_places(state));
    laws::telling_stays_orderly(state, clear);
    setting_stays_orderly(clear, window, true, requested);
    fullscreen_is_per_workspace(clear, window, requested);
    let set = clear.fullscreen_set(window, true, requested);
    laws::keeping_chains(state, clear, set);
    let after = state.fullscreen_entered(window, requested);
    assert(after.keeps_places(set));
    laws::telling_stays_orderly(set, after);
    laws::keeping_chains(state, set, after);
}

/// Leaving fullscreen for good.
pub proof fn exiting_stays_orderly(state: State, window: SurfaceId)
    requires
        state.orderly(),
    ensures
        state.fullscreen_exited(window).orderly_like(state),
        state.fullscreen_exited(window).elements == state.elements,
{
    reveal(State::fullscreen_exited);
    if state.owns_workspace(window) {
        lists::index_of_finds(state.mapped, window);
        lists::index_of_finds(state.unmapped, window);
        let cleared = state.transition_cleared(window);
        let clear = State { restores: cleared.restores.remove(window), ..cleared };
        assert(clear.keeps_places(state));
        laws::telling_stays_orderly(state, clear);
        setting_stays_orderly(clear, window, false, None);
        let set = clear.fullscreen_set(window, false, None);
        laws::keeping_chains(state, clear, set);
        let (size, bounds) = match set.layout_target(window) {
            Some((rect, bounds)) => (rect.size, bounds),
            None => (
                crate::geometry::Size { w: 0, h: 0 },
                crate::geometry::Size { w: 0, h: 0 },
            ),
        };
        asking_layout_keeps_places(set, window, size, bounds);
        let after = state.fullscreen_exited(window);
        assert(after.keeps_places(set)) by {
            if set.marked_maximized(window) {
                let asked = set.maximized_asked(window);
                assert(after.keeps_places(asked));
                laws::keeping_chains(set, asked, after);
            }
        }
        laws::telling_stays_orderly(set, after);
        laws::keeping_chains(state, set, after);
    }
}

/// Putting a fullscreen window on the screen back where it was.
pub proof fn finalizing_stays_orderly(state: State, window: SurfaceId)
    requires
        state.orderly(),
        state.on_screen(window),
    ensures
        state.exit_finalized(window).orderly_like(state),
{
    reveal(State::exit_finalized);
    if state.owns_workspace(window) {
        keeping::shown_is_mapped(state, window);
        let clear = state.transition_cleared(window);
        assert(clear.keeps_places(state));
        laws::telling_stays_orderly(state, clear);
        leaving_stays_orderly(clear, window);
        let left = clear.fullscreen_left(window);
        laws::keeping_chains(state, clear, left);
        let target = if left.marked_maximized(window) {
            left.work_area(window)
        } else {
            left.restore_rect(window)
        };
        if let Some(rect) = target {
            keeping::mapping_keeps(left, window, rect, false);
            laws::keeping_chains(state, left, left.mapped_to(window, rect, false));
        }
        laws::orderly_by_lists(state, state.exit_finalized(window));
    }
}

/// Asking to enter fullscreen.
pub proof fn enter_request_stays_orderly(
    state: State,
    window: SurfaceId,
    requested: Option<OutputId>,
)
    requires
        state.orderly(),
        state.has_window(window),
    ensures
        state.enter_requested(window, requested).orderly_like(state),
        state.enter_requested(window, requested).elements == state.elements,
{
    reveal(State::enter_requested);
    let noted = state.enter_noted(window, requested);
    assert(noted.keeps_places(state));
    laws::telling_stays_orderly(state, noted);
    asking_fullscreen_keeps_places(
        noted,
        window,
        true,
        noted.enter_rect(window, requested),
    );
    let asked = state.enter_asked(window, requested);
    laws::telling_stays_orderly(noted, asked);
    laws::keeping_chains(state, noted, asked);
    let clear = asked.transition_cleared(window);
    assert(clear.keeps_places(asked));
    laws::telling_stays_orderly(asked, clear);
    laws::keeping_chains(state, asked, clear);
    entering_stays_orderly(clear, window, requested);
    laws::keeping_chains(state, clear, clear.fullscreen_entered(window, requested));
}

/// Asking to leave fullscreen.
pub proof fn exit_request_stays_orderly(state: State, window: SurfaceId)
    requires
        state.orderly(),
    ensures
        state.exit_requested(window).orderly_like(state),
{
    reveal(State::exit_requested);
    if !state.owns_workspace(window) {
        let clear = state.transition_cleared(window);
        assert(clear.keeps_places(state));
        laws::telling_stays_orderly(state, clear);
        asking_fullscreen_keeps_places(clear, window, false, None);
        laws::telling_stays_orderly(clear, clear.fullscreen_asked(window, false, None));
        laws::keeping_chains(state, clear, clear.fullscreen_asked(window, false, None));
    } else {
        let noted = State {
            transitions: state.transitions.insert(window, PendingFullscreenTransition::Exit),
            ..state
        };
        assert(noted.keeps_places(state));
        laws::telling_stays_orderly(state, noted);
        let (size, bounds) = match noted.layout_target(window) {
            Some((rect, bounds)) => (rect.size, bounds),
            None => (
                crate::geometry::Size { w: 0, h: 0 },
                crate::geometry::Size { w: 0, h: 0 },
            ),
        };
        asking_layout_keeps_places(noted, window, size, bounds);
        asking_fullscreen_keeps_places(noted, window, false, None);
        let asked = noted.exit_asked(window);
        assert(asked.keeps_places(noted));
        laws::telling_stays_orderly(noted, asked);
        laws::keeping_chains(state, noted, asked);
        if asked.on_screen(window) {
            let clear = asked.transition_cleared(window);
            assert(clear.keeps_places(asked));
            laws::telling_stays_orderly(asked, clear);
            laws::keeping_chains(state, asked, clear);
            finalizing_stays_orderly(clear, window);
            laws::keeping_chains(state, clear, clear.exit_finalized(window));
        }
    }
}

/// Raising a window leaves the state orderly.
pub proof fn raising_stays_orderly(state: State, window: SurfaceId)
    requires
        state.orderly(),
    ensures
        state.raised(window).orderly_like(state),
        state.raised_in_layer(window).orderly_like(state),
{
    keeping::raising_keeps(state, window);
    laws::orderly_by_lists(state, state.raised(window));
    keeping::raising_in_layer_keeps(state, window);
    laws::orderly_by_lists(state, state.raised_in_layer(window));
}

/// Completing a change of fullscreen.
pub proof fn transition_stays_orderly(state: State, surface: SurfaceId)
    requires
        state.orderly(),
    ensures
        state.transition_applied(surface).orderly(),
        state.transition_applied(surface).settings == state.settings,
        state.transition_applied(surface).current == state.current,
        state.all_alive() ==> state.transition_applied(surface).keeps_lists(state),
{
    reveal(State::transition_applied);
    let clear = state.transition_cleared(surface);
    assert(clear.keeps_places(state));
    laws::telling_stays_orderly(state, clear);
    if state.transitions.contains_key(surface) && state.has_window(surface) && state.on_screen(
        surface,
    ) {
        match state.transitions[surface] {
            PendingFullscreenTransition::Enter { requested_output } => {
                entering_stays_orderly(clear, surface, requested_output);
                let entered = clear.fullscreen_entered(surface, requested_output);
                laws::keeping_chains(state, clear, entered);
                raising_stays_orderly(entered, surface);
                laws::keeping_chains(state, entered, entered.raised(surface));
                laws::orderly_by_lists(state, entered);
                laws::orderly_by_lists(state, entered.raised(surface));
                laws::layout_stays_orderly(entered);
                laws::layout_stays_orderly(entered.raised(surface));
                if state.all_alive() {
                    laws::keeping_chains(state, entered, entered.laid_out().0);
                    laws::keeping_chains(
                        state,
                        entered.raised(surface),
                        entered.raised(surface).laid_out().0,
                    );
                }
            },
            PendingFullscreenTransition::Exit => {
                finalizing_stays_orderly(clear, surface);
                let exited = clear.exit_finalized(surface);
                laws::keeping_chains(state, clear, exited);
                laws::orderly_by_lists(state, exited);
                laws::layout_stays_orderly(exited);
                if state.all_alive() {
                    laws::keeping_chains(state, exited, exited.laid_out().0);
                }
            },
        }
    }
}

/// Giving a window what it asked for while it waited for the screen.
pub proof fn pending_stays_orderly(state: State, surface: SurfaceId)
    requires
        state.orderly(),
        state.has_window(surface),
    ensures
        state.pending_applied(surface).orderly(),
        state.pending_applied(surface).settings == state.settings,
        state.pending_applied(surface).current == state.current,
        state.all_alive() ==> state.pending_applied(surface).keeps_lists(state),
{
    reveal(State::pending_applied);
    let clear = State {
        pending_fullscreen: state.pending_fullscreen.remove(surface),
        pending_maximized: state.pending_maximized.remove(surface),
        ..state
    };
    assert(clear.keeps_places(state));
    laws::telling_stays_orderly(state, clear);
    raising_stays_orderly(clear, surface);
    laws::keeping_chains(state, clear, clear.raised(surface));
    laws::orderly_by_lists(state, clear.raised(surface));
    laws::layout_stays_orderly(clear.raised(surface));
    if state.all_alive() {
        laws::keeping_chains(state, clear.raised(surface), clear.raised(surface).laid_out().0);
    }
}

/// Toggling the fullscreen of the focused window.
pub proof fn fullscreen_toggle_stays_orderly(state: State)
    requires
        state.orderly(),
    ensures
        state.fullscreen_toggled().0.orderly(),
{
    reveal(State::fullscreen_toggled);
    if let Some(window) = state.keyboard_focus {
        if state.has_window(window) {
            exit_request_stays_orderly(state, window);
            laws::layout_stays_orderly(state.exit_requested(window));
            enter_request_stays_orderly(state, window, None);
            raising_stays_orderly(state.enter_requested(window, None), window);
            laws::layout_stays_orderly(state.enter_requested(window, None).raised(window));
        }
    }
}

/// Toggling whether the focused window floats.
pub proof fn floating_toggle_stays_orderly(state: State)
    requires
        state.orderly(),
    ensures
        state.floating_toggled().0.orderly(),
{
    reveal(State::floating_toggled);
    if let Some(window) = state.keyboard_focus {
        let set = state.with_floating(window, !state.floats(window));
        assert(set.keeps_places(state));
        laws::telling_stays_orderly(state, set);
        laws::layout_stays_orderly(set);
        if set.on_screen(window) {
            keeping::shown_is_mapped(set, window);
            keeping::mapping_keeps(set, window, set.initial_rect(window), true);
            let shown = set.mapped_to(window, set.initial_rect(window), true);
            laws::orderly_by_lists(set, shown);
            laws::layout_stays_orderly(shown);
        }
    }
}

/// Telling windows whether they are active.
pub proof fn activation_keeps_places(state: State, list: Seq<SurfaceId>, focused: Option<SurfaceId>)
    ensures
        state.activation_told(list, focused).keeps_places(state),
    decreases list.len(),
{
    if list.len() > 0 {
        activation_keeps_places(state, list.drop_last(), focused);
        let before = state.activation_told(list.drop_last(), focused);
        let window = list.last();
        let pending = ToplevelState {
            activated: focused == Some(window),
            ..before.toplevel(window).pending
        };
        keeping::asking_keeps_places(before, window, pending, None);
        let marked = before.with_pending(window, pending);
        keeping::asking_keeps_places(marked, window, pending, None);
        laws::keeping_chains(state, before, marked);
        laws::keeping_chains(state, marked, state.activation_told(list, focused));
    }
}

/// Giving the keyboard to a surface.
pub proof fn focusing_stays_orderly(state: State, target: Option<SurfaceId>)
    requires
        state.orderly(),
    ensures
        state.focus_set(target).orderly_like(state),
        state.focus_set(target).keyboard_focus == target,
{
    reveal(State::focus_set);
    if state.keyboard_focus != target {
        let window = match target {
            Some(surface) => if state.has_window(surface) {
                Some(surface)
            } else {
                None
            },
            None => None,
        };
        let raised = match window {
            Some(window) => if state.on_screen(window) {
                state.raised_in_layer(window)
            } else {
                state
            },
            None => state,
        };
        if let Some(window) = window {
            raising_stays_orderly(state, window);
        }
        activation_keeps_places(raised, space::stack(raised.elements), window);
        let synced = raised.activation_synced(window);
        laws::telling_stays_orderly(raised, synced);
        laws::keeping_chains(state, raised, synced);
        let after = state.focus_set(target);
        assert(after.keeps_places(synced));
        laws::telling_stays_orderly(synced, after);
        laws::keeping_chains(state, synced, after);
    }
}

/// Giving the keyboard to a window on the screen.
pub proof fn refocusing_stays_orderly(state: State)
    requires
        state.orderly(),
    ensures
        state.refocused().orderly_like(state),
{
    reveal(State::refocused);
    focusing_stays_orderly(state, state.next_focus());
    activation_keeps_places(state, space::stack(state.elements), state.keyboard_focus);
    laws::telling_stays_orderly(state, state.activation_synced(state.keyboard_focus));
}

} // verus!
