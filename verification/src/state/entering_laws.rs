//! Laws of entering fullscreen: a window that enters it fills its workspace and is shown on the whole
//! of the output, above all others.

use crate::geometry::Rectangle;
use crate::state::fullscreen_laws;
use crate::state::keeping;
use crate::state::laws;
use crate::state::lists;
use crate::state::lists::SurfaceId;
use crate::state::raven::State;
use crate::state::settling;
use crate::state::space;
use crate::state::staying;
use crate::state::toggling_laws;
use crate::state::toplevel::PendingFullscreenTransition;
use crate::state::windows;
use vstd::prelude::*;

verus! {

impl State {
    /// Whether the current workspace is filled by a window that is shown on this rectangle, above all
    /// others, and whose client is asked to be fullscreen.
    pub open spec fn is_filled_by(self, window: SurfaceId, whole: Rectangle) -> bool {
        &&& self.current < self.owners.len()
        &&& self.owners[self.current as int] is Some
        &&& self.owners[self.current as int].unwrap().surface == window
        &&& self.assigned.contains_key(window)
        &&& self.assigned[window] == whole
        &&& self.stands(window, whole.loc)
        &&& self.elements.len() > 0
        &&& self.elements.last().window == window
        &&& self.toplevel(window).pending.fullscreen
        &&& self.toplevel(window).geometry == whole.size || self.toplevel(window).pending.size
            == Some(whole.size)
    }

    /// Whether a window of the current workspace can be shown fullscreen on this rectangle: it is alive
    /// and has a buffer, and fills no workspace yet.
    pub open spec fn can_fill(self, window: SurfaceId, whole: Rectangle) -> bool {
        &&& self.mapped[self.current as int].contains(window)
        &&& self.toplevel(window).has_buffer
        &&& self.fills_none(window)
        &&& self.shows_on(window, whole)
    }
}

/// What entering fullscreen leaves for the layout.
proof fn entered_owns(state: State, window: SurfaceId, whole: Rectangle)
    requires
        state.orderly(),
        state.all_alive(),
        state.can_fill(window, whole),
    ensures
        ({
            let entered = state.fullscreen_entered(window, None);
            &&& entered.orderly_like(state)
            &&& entered.elements == state.elements
            &&& entered.slot(state.current as int) is Some
            &&& entered.slot(state.current as int).unwrap().surface == window
            &&& entered.slot(state.current as int).unwrap().output == Some(state.outputs[0].id)
            &&& entered.toplevel(window).pending.fullscreen
            &&& entered.toplevel(window).overlaps == state.toplevel(window).overlaps
            &&& !entered.floats(window)
            &&& !entered.transitions.contains_key(window)
        }),
{
    let current = state.current as int;
    assert(lists::listed(state.mapped, window));
    assert(state.workspace_holds(current, window));
    keeping::holder_is_only(state, window, current);
    fullscreen_laws::entering_stays_orderly(state, window, None);
    reveal(State::fullscreen_entered);
    lists::without_leaves(state.floating, window);
    let single = state.with_floating(window, false);
    let clear = State {
        recenter: single.recenter.remove(window),
        ..single.transition_cleared(window)
    };
    assert(clear.keeps_places(state));
    laws::telling_stays_orderly(state, clear);
    assert(!clear.owns_workspace(window)) by {
        if clear.owns_workspace(window) {
            assert(state.owners[current] is Some);
        }
    }
    assert(clear.on_screen(window) == state.on_screen(window));
    assert(clear.preferred_output(window) == Some(state.outputs[0].id));
    fullscreen_laws::fullscreen_is_per_workspace(clear, window, None);
    let set = clear.fullscreen_set(window, true, None);
    assert(set.owners[current].unwrap().surface == window);
    assert(set.toplevel(window).pending.fullscreen);
    let workspace = current;
    let owned = clear.owner_assigned(workspace, window, clear.resolved_output(window, None));
    assert(owned.toplevel(window).overlaps == state.toplevel(window).overlaps);
}

/// A window that enters fullscreen and is laid out fills the current workspace.
proof fn entered_fills(state: State, window: SurfaceId, whole: Rectangle)
    requires
        state.orderly(),
        state.all_alive(),
        state.can_fill(window, whole),
    ensures
        state.fullscreen_entered(window, None).raised(window).laid_out().0.is_filled_by(
            window,
            whole,
        ),
        state.entering_matters(window, None),
        !state.fullscreen_entered(window, None).raised(window).laid_out().0.transitions.contains_key(
            window,
        ),
{
    let current = state.current as int;
    assert(state.workspace_holds(current, window));
    keeping::holder_is_only(state, window, current);
    assert(state.entering_matters(window, None)) by {
        reveal(State::entering_matters);
        if state.owns_workspace(window) {
            assert(state.owners[current] is Some);
        }
    }
    entered_owns(state, window, whole);
    let entered = state.fullscreen_entered(window, None);
    fullscreen_laws::raising_stays_orderly(entered, window);
    keeping::raising_keeps(entered, window);
    let raised = entered.raised(window);
    settling::activating_keeps_sizes(
        entered.toplevels,
        space::stack(raised.elements),
        Some(window),
        window,
    );
    activating_keeps_overlaps(
        entered.toplevels,
        space::stack(raised.elements),
        Some(window),
        window,
    );
    assert(raised.toplevel(window) == windows::known(raised.toplevels, window));
    assert(entered.toplevel(window) == windows::known(entered.toplevels, window));
    assert(raised.toplevel(window).has_buffer) by {
        assert(entered.toplevel(window).has_buffer == state.toplevel(window).has_buffer);
        assert(raised.toplevel(window).has_buffer == entered.toplevel(window).has_buffer);
    }
    assert(raised.all_alive()) by {
        assert forall|other: SurfaceId|
            #![trigger raised.toplevel(other)]
            lists::listed(raised.mapped, other) || lists::listed(
                raised.unmapped,
                other,
            ) implies raised.toplevel(other).live by {
            assert(entered.toplevel(other).live == raised.toplevel(other).live);
            assert(state.toplevel(other).live);
        }
    }
    assert(raised.shows_on(window, whole));
    toggling_laws::layout_fills_output(raised, window, whole);
    laws::layout_stays_orderly(raised);
    staying::layout_keeps_notes(raised);
    laws::pruning_stays_orderly(raised);
    let after = raised.laid_out().0;
    assert(after.elements.len() > 0) by {
        let k = choose|k: int|
            0 <= k < after.elements.len() && after.elements[k] == (space::Element {
                window,
                location: whole.loc,
            });
        assert(after.elements[k].window == window);
    }
}

proof fn activating_keeps_overlaps(
    toplevels: Map<SurfaceId, crate::state::toplevel::Toplevel>,
    stack: Seq<SurfaceId>,
    focused: Option<SurfaceId>,
    window: SurfaceId,
)
    ensures
        windows::known(windows::activated(toplevels, stack, focused), window).overlaps
            == windows::known(toplevels, window).overlaps,
    decreases stack.len(),
{
    if stack.len() > 0 {
        activating_keeps_overlaps(toplevels, stack.drop_last(), focused, window);
    }
}

/// Once the client has committed the size of the output, a window that waits to enter fullscreen fills
/// its workspace, and nothing is noted for it any more.
pub proof fn followed_enter_fills(state: State, window: SurfaceId, whole: Rectangle)
    requires
        state.orderly(),
        state.all_alive(),
        state.can_fill(window, whole),
        state.on_screen(window),
        state.transitions.contains_key(window),
        state.transitions[window] == (PendingFullscreenTransition::Enter {
            requested_output: None,
        }),
        state.toplevel(window).committed_size == Some(whole.size),
    ensures
        state.transition_applied(window).is_filled_by(window, whole),
        !state.transition_applied(window).transitions.contains_key(window),
{
    reveal(State::transition_applied);
    let current = state.current as int;
    assert(lists::listed(state.mapped, window));
    assert(state.workspace_holds(current, window));
    keeping::holder_is_only(state, window, current);
    assert(!state.owns_workspace(window)) by {
        if state.owns_workspace(window) {
            assert(state.owners[current] is Some);
        }
    }
    assert(state.preferred_output(window) == Some(state.outputs[0].id));
    toggling_laws::first_output_is_found(state.outputs);
    assert(state.transition_ready(window, state.transitions[window]));
    let clear = state.transition_cleared(window);
    assert(clear.keeps_places(state));
    laws::telling_stays_orderly(state, clear);
    keeping::telling_keeps(state, clear);
    assert(clear.can_fill(window, whole));
    entered_fills(clear, window, whole);
}

/// A window on the screen whose client asks for fullscreen fills its workspace at once.
pub proof fn fullscreen_request_fills(state: State, window: SurfaceId, whole: Rectangle)
    requires
        state.orderly(),
        state.all_alive(),
        state.can_fill(window, whole),
        state.on_screen(window),
    ensures
        state.fullscreen_requested(window).is_filled_by(window, whole),
{
    reveal(State::fullscreen_requested);
    let settled = state.settled(window);
    let clear = State {
        pending_fullscreen: settled.pending_fullscreen.remove(window),
        ..settled
    };
    assert(clear.keeps_places(state));
    laws::telling_stays_orderly(state, clear);
    keeping::telling_keeps(state, clear);
    assert(clear.can_fill(window, whole));
    entered_fills(clear, window, whole);
}

/// A window on the screen that fills its workspace no longer does once its client asks not to be
/// fullscreen, and the client is asked for another state.
pub proof fn unfullscreen_request_ends(state: State, window: SurfaceId, index: int)
    requires
        state.orderly(),
        state.on_screen(window),
        0 <= index < state.owners.len(),
        state.owners[index] is Some,
        state.owners[index].unwrap().surface == window,
    ensures
        state.unfullscreen_requested(window).fills_none(window),
        !state.unfullscreen_requested(window).toplevel(window).pending.fullscreen,
{
    reveal(State::unfullscreen_requested);
    let clear = State {
        pending_fullscreen: state.pending_fullscreen.remove(window),
        ..state
    };
    assert(clear.keeps_places(state));
    laws::telling_stays_orderly(state, clear);
    toggling_laws::owner_owns(clear, window, index);
    exited_is_windowed(clear, window, index);
    fullscreen_laws::exiting_stays_orderly(clear, window);
    toggling_laws::layout_stays_windowed(clear.fullscreen_exited(window), window);
}

proof fn settling_stays_windowed(state: State, window: SurfaceId)
    requires
        state.is_windowed(window),
    ensures
        state.windowed_settled(window).is_windowed(window),
{
    let asked = state.maximized_asked(window);
    assert(asked.owners == state.owners);
    assert(!asked.toplevel(window).pending.fullscreen);
    if let Some((rect, bounds)) = state.layout_target(window) {
        let tiled = state.tiled_asked(window, rect.size, bounds);
        assert(tiled.owners == state.owners);
        assert(!tiled.toplevel(window).pending.fullscreen);
    }
}

proof fn unsetting_is_windowed(state: State, window: SurfaceId, index: int)
    requires
        state.orderly(),
        0 <= index < state.owners.len(),
        state.owners[index] is Some,
        state.owners[index].unwrap().surface == window,
    ensures
        state.fullscreen_set(window, false, None).is_windowed(window),
{
    toggling_laws::owner_owns(state, window, index);
    let left = state.fullscreen_left(window);
    assert(left.owners == state.owners.update(index, None));
    let set = state.fullscreen_set(window, false, None);
    assert(set.owners == left.owners);
    assert(!set.toplevel(window).pending.fullscreen);
    assert forall|i: int|
        0 <= i < set.owners.len() && (#[trigger] set.owners[i]) is Some implies
        set.owners[i].unwrap().surface != window by {
        assert(i != index);
        assert(state.owners[i] is Some);
        assert(state.owners[index] is Some);
    }
}

proof fn exited_is_windowed(state: State, window: SurfaceId, index: int)
    requires
        state.orderly(),
        0 <= index < state.owners.len(),
        state.owners[index] is Some,
        state.owners[index].unwrap().surface == window,
    ensures
        state.fullscreen_exited(window).is_windowed(window),
{
    toggling_laws::owner_owns(state, window, index);
    let clear = state.transition_cleared(window);
    let bare = State { restores: clear.restores.remove(window), ..clear };
    assert(bare.keeps_places(state));
    laws::telling_stays_orderly(state, bare);
    unsetting_is_windowed(bare, window, index);
    let set = bare.fullscreen_set(window, false, None);
    settling_stays_windowed(set, window);
    assert(state.fullscreen_exited(window) == set.windowed_settled(window)) by {
        reveal(State::fullscreen_exited);
    }
}

} // verus!
