//! Laws of what clients ask for: a maximized window gets what is free of the output, one that no longer
//! is gets its tile, and a popup stays on the output.

use crate::geometry::{Point, Rectangle, WindowGeometry};
use crate::handlers::laws as handler_laws;
use crate::state::fullscreen_laws;
use crate::state::keeping;
use crate::state::laws;
use crate::state::lists;
use crate::state::lists::SurfaceId;
use crate::state::raven::{State, WORKSPACE_COUNT};
use crate::state::rules::Naming;
use crate::state::settling;
use crate::state::space;
use crate::state::tiling_laws;
use crate::state::toggling_laws;
use crate::state::windows;
use crate::state::workspace_laws;
use vstd::prelude::*;

verus! {

/// A window whose client asks to be maximized is noted as such and no longer floats; unless it is
/// fullscreen, its client is asked to be maximized, in the size of what is free of the output.
pub proof fn maximize_asks_free_area(
    state: State,
    window: SurfaceId,
    area: Rectangle,
    whole: Rectangle,
)
    requires
        state.orderly(),
        state.has_window(window),
        state.fills_none(window),
        state.shows_on(window, whole),
        state.is_free(area),
    ensures
        ({
            let after = state.maximize_requested(window);
            &&& after.maximized.contains(window)
            &&& !after.floats(window)
            &&& after.toplevel(window).pending.maximized
            &&& !after.toplevel(window).pending.fullscreen
            &&& after.toplevel(window).pending.size == Some(area.size)
            &&& state.on_screen(window) ==> after.elements.last().window == window
        }),
{
    lists::without_leaves(state.floating, window);
    keeping::window_has_workspace(state, window);
    let index = state.workspace_of(window).unwrap() as int;
    let settled = state.settled(window);
    let noted = State {
        pending_maximized: if state.on_screen(window) {
            settled.pending_maximized.remove(window)
        } else {
            settled.pending_maximized.insert(window)
        },
        ..settled
    };
    let marked = State { maximized: noted.maximized.insert(window), ..noted };
    assert(!marked.owns_workspace(window)) by {
        if marked.owns_workspace(window) {
            assert(state.owners[index] is Some);
        }
    }
    assert(marked.preferred_output(window) == Some(state.outputs[0].id));
    toggling_laws::first_output_is_found(state.outputs);
    assert(marked.work_area(window) == Some(area));
    let asked = marked.maximized_asked(window);
    let after = state.maximize_requested(window);
    assert(after == asked.raised(window));
    settling::activating_keeps_sizes(
        asked.toplevels,
        space::stack(after.elements),
        Some(window),
        window,
    );
    assert(after.toplevel(window) == windows::known(after.toplevels, window));
    assert(asked.toplevel(window) == windows::known(asked.toplevels, window));
}

/// Once a window is no longer maximized, it is not noted as such, and the tiled windows have their
/// tiles in what is free of the output.
pub proof fn unmaximize_fills_tiles(
    state: State,
    window: SurfaceId,
    area: Rectangle,
    tiles: Seq<WindowGeometry>,
    at: int,
)
    requires
        state.orderly(),
        state.all_alive(),
        state.on_screen(window),
        state.slot(state.current as int) is None,
        state.is_free(area),
        state.arranges(area, state.to_tile(None).len(), tiles),
        0 <= at < state.to_tile(None).len(),
        at < tiles.len(),
    ensures
        state.unmaximize_requested(window).fills_tile(state.to_tile(None)[at], area, tiles[at]),
{
    let set = State {
        pending_maximized: state.pending_maximized.remove(window),
        ..state
    }.maximized_set(window, false);
    assert(set.keeps_places(state)) by {
        assert forall|other: SurfaceId|
            #![trigger set.toplevel(other)]
            #![trigger state.toplevel(other)]
            set.toplevel(other).live == state.toplevel(other).live && set.toplevel(other).has_buffer
                == state.toplevel(other).has_buffer by {}
    }
    laws::telling_stays_orderly(state, set);
    keeping::telling_keeps(state, set);
    assert forall|other: SurfaceId| set.toplevel(other).has_buffer == #[trigger] state.toplevel(
        other,
    ).has_buffer by {}
    tiling_laws::same_windows_are_tiled(state, set);
    tiling_laws::arrangement_stays(state, set, area, set.to_tile(None).len(), tiles);
    tiling_laws::layout_fills_tiles(set, area, tiles, at);
}

/// The rectangle that a popup must stay in is the first output, seen from the popup's parent: its
/// corner, moved by the place of the parent and of the window, is the output's.
pub proof fn popup_stays_on_output(
    state: State,
    root: SurfaceId,
    origin: Point,
    offset: Point,
    location: Point,
    whole: Rectangle,
)
    requires
        state.orderly(),
        state.stands(root, location),
        state.outputs.len() > 0,
        state.outputs[0].geometry == Some(whole),
        i32::MIN <= whole.loc.x - offset.x <= i32::MAX,
        i32::MIN <= whole.loc.x - offset.x - location.x <= i32::MAX,
        i32::MIN <= whole.loc.y - offset.y <= i32::MAX,
        i32::MIN <= whole.loc.y - offset.y - location.y <= i32::MAX,
    ensures
        ({
            let bounds = state.popup_bounds(root, origin, offset);
            &&& bounds is Some
            &&& bounds.unwrap().size == whole.size
            &&& bounds.unwrap().loc.x + offset.x + location.x == whole.loc.x
            &&& bounds.unwrap().loc.y + offset.y + location.y == whole.loc.y
        }),
{
    settling::standing_is_found(state.elements, root, location);
}

proof fn holder_is_found(state: State, window: SurfaceId, from: int, index: int)
    requires
        0 <= from <= index < WORKSPACE_COUNT,
        state.workspace_holds(index, window),
        forall|i: int| #[trigger] state.workspace_holds(i, window) ==> i == index,
    ensures
        state.holder_from(window, from) == Some(index as usize),
    decreases index - from,
{
    if from < index {
        if state.workspace_holds(from, window) {
            assert(from == index);
        }
        holder_is_found(state, window, from + 1, index);
    }
}

/// A window that another program asks to be active has the keyboard, on its own workspace, which is
/// current then; unless the switch there failed.
pub proof fn activation_goes_to_the_window(state: State, window: SurfaceId, index: int)
    requires
        state.orderly(),
        0 <= index < WORKSPACE_COUNT,
        state.workspace_holds(index, window),
    ensures
        index == state.current || state.workspace_switched(index).1 is Ok
            ==> state.foreign_activated(window).keyboard_focus == Some(window)
            && state.foreign_activated(window).current == index,
{
    reveal(State::foreign_activated);
    keeping::holder_is_only(state, window, index);
    holder_is_found(state, window, 0, index);
    handler_laws::following_stays_orderly(state, window);
    workspace_laws::switching_stays_orderly(state, index);
    let there = state.workspace_followed(window).0;
    fullscreen_laws::raising_stays_orderly(there, window);
    fullscreen_laws::focusing_stays_orderly(there.raised_in_layer(window), Some(window));
}

/// When the rules are looked at again for a window, it is on the workspace that they say, and has the
/// keyboard where they do not refuse it and that workspace is current.
pub proof fn recheck_follows_rules(state: State, window: SurfaceId, naming: Naming)
    requires
        state.orderly(),
        state.all_alive(),
        state.recheck.contains(window),
        state.has_window(window),
        state.toplevel(window).has_buffer,
        state.toplevel(window).has_buffer_size,
        state.decision(naming).workspace_index < WORKSPACE_COUNT,
    ensures
        state.rules_rechecked(window, naming).workspace_of(window) == Some(
            state.decision(naming).workspace_index,
        ),
        state.decision(naming).focus && state.decision(naming).workspace_index == state.current
            ==> state.rules_rechecked(window, naming).keyboard_focus == Some(window),
{
    reveal(State::rules_rechecked);
    let decision = state.decision(naming);
    let index = decision.workspace_index as int;
    keeping::window_has_workspace(state, window);
    assert(state.toplevel(window).live) by {
        let home = state.workspace_of(window).unwrap() as int;
        if 0 <= home < state.mapped.len() && state.mapped[home].contains(window) {
            assert(lists::listed(state.mapped, window));
        } else {
            assert(lists::listed(state.unmapped, window));
        }
    }
    workspace_laws::moving_stays_orderly(state, window, index);
    let moved = state.moved_to_workspace(window, index).0;
    handler_laws::rules_placing_stays_orderly(state, window, naming);
    let placed = state.rules_placed(window, naming);
    fullscreen_laws::enter_request_stays_orderly(placed, window, None);
    let full = if decision.fullscreen {
        placed.enter_requested(window, None)
    } else {
        placed
    };
    laws::keeping_chains(moved, placed, full);
    assert(full.all_alive()) by {
        assert forall|other: SurfaceId|
            #![trigger full.toplevel(other)]
            lists::listed(full.mapped, other) || lists::listed(full.unmapped, other) implies
            full.toplevel(other).live by {
            assert(moved.toplevel(other).live);
        }
    }
    laws::layout_stays_orderly(full);
    let laid_out = full.laid_out().0;
    fullscreen_laws::focusing_stays_orderly(laid_out, Some(window));
}

/// A new window that the rules want fullscreen, and whose names have to be waited for, fills the workspace
/// that they say; one that they do not want so leaves that workspace as it was.
pub proof fn new_window_fills_by_rule(state: State, window: SurfaceId, naming: Naming)
    requires
        state.orderly(),
        !state.has_window(window),
        state.toplevel(window).live,
        state.decision(naming).workspace_index < WORKSPACE_COUNT,
        state.defers_rules(naming),
    ensures
        ({
            let index = state.decision(naming).workspace_index as int;
            let after = state.new_window(window, naming);
            &&& state.decision(naming).fullscreen ==> after.owners[index] is Some
                && after.owners[index].unwrap().surface == window
            &&& !state.decision(naming).fullscreen ==> after.owners == state.owners
        }),
{
    reveal(State::new_window);
    handler_laws::new_window_waits(state, window, naming);
    handler_laws::kept_window_waits(state, window, naming);
    let kept = state.new_window_kept(window, naming);
    fullscreen_laws::entering_stays_orderly(kept, window, None);
    let entered = kept.fullscreen_entered(window, None);
    if state.decision(naming).fullscreen {
        assert(entered.owns_workspace(window));
        assert(entered.workspace_of(window) == state.new_window(window, naming).workspace_of(
            window,
        ));
    }
}

/// Where no rule says whether it floats, a new window floats if it belongs to another one or cannot change
/// its height, and else is tiled; it waits on the workspace of the decision.
pub proof fn new_window_floats_of_itself(state: State, window: SurfaceId, naming: Naming)
    requires
        state.orderly(),
        !state.has_window(window),
        state.decision(naming).workspace_index < WORKSPACE_COUNT,
        forall|i: int|
            0 <= i < state.settings.window_rules.len() ==> (
            #[trigger] state.settings.window_rules[i]).floating is None,
        !state.exclusive(window),
    ensures
        ({
            let toplevel = state.toplevel(window);
            let kept = state.new_window_kept(window, naming);
            &&& toplevel.parent is Some ==> kept.floats(window)
            &&& toplevel.min_size.h > 0 && toplevel.max_size.h == toplevel.min_size.h
                ==> kept.floats(window)
            &&& toplevel.parent is None && toplevel.max_size.h > toplevel.min_size.h ==> !kept.floats(
                window,
            )
            &&& kept.workspace_of(window) == Some(state.decision(naming).workspace_index)
        }),
{
    handler_laws::kept_window_waits(state, window, naming);
    lists::without_leaves(state.floating, window);
    let grown = state.floating.push(window);
    assert(grown[grown.len() - 1] == window);
    assert(grown.contains(window));
    let kept = state.new_window_kept(window, naming);
    let floating = state.auto_floating(window).0;
    assert(kept.floating == state.with_floating(window, floating).floating);
}

} // verus!
