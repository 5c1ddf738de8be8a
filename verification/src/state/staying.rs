//! What stays: a layout moves no live window to another list, and leaves alone what is noted of it.

use crate::geometry::{Rectangle, WindowGeometry};
use crate::state::fullscreen_laws;
use crate::state::laws;
use crate::state::lifecycle;
use crate::state::lists;
use crate::state::lists::SurfaceId;
use crate::state::raven::State;
use crate::state::space;
use crate::state::toplevel::{OutputId, PendingFullscreenTransition};
use vstd::prelude::*;

verus! {

impl State {
    /// Whether the live windows are on the same lists, with the same marks.
    pub open spec fn keeps_live(self, other: State) -> bool {
        &&& self.mapped.len() == other.mapped.len()
        &&& self.unmapped.len() == other.unmapped.len()
        &&& self.lives_like(other)
        &&& forall|i: int, window: SurfaceId|
            #![trigger self.mapped[i].contains(window)]
            #![trigger other.mapped[i].contains(window)]
            0 <= i < self.mapped.len() && other.toplevel(window).live ==> self.mapped[i].contains(
                window,
            ) == other.mapped[i].contains(window)
        &&& forall|i: int, window: SurfaceId|
            #![trigger self.unmapped[i].contains(window)]
            #![trigger other.unmapped[i].contains(window)]
            0 <= i < self.unmapped.len() && other.toplevel(window).live
                ==> self.unmapped[i].contains(window) == other.unmapped[i].contains(window)
        &&& forall|window: SurfaceId|
            #![trigger self.unmapped_marks.contains(window)]
            #![trigger other.unmapped_marks.contains(window)]
            other.toplevel(window).live ==> self.unmapped_marks.contains(window)
                == other.unmapped_marks.contains(window)
    }

    /// Whether the same is noted of all windows.
    pub open spec fn keeps_notes(self, other: State) -> bool {
        &&& self.floating == other.floating
        &&& self.maximized == other.maximized
        &&& self.pending_fullscreen == other.pending_fullscreen
        &&& self.pending_maximized == other.pending_maximized
        &&& self.transitions == other.transitions
        &&& self.restores == other.restores
        &&& self.recenter == other.recenter
        &&& self.recheck == other.recheck
        &&& self.initial_configure == other.initial_configure
        &&& self.configure_idle == other.configure_idle
    }

    /// Whether a window is mapped and its client alive.
    pub open spec fn lives_mapped(self, window: SurfaceId) -> bool {
        &&& self.toplevel(window).live
        &&& lists::listed(self.mapped, window)
        &&& !self.unmapped_marks.contains(window)
    }

    /// Whether nothing is noted of a window, and no workspace is filled by it.
    pub open spec fn unnoted(self, window: SurfaceId) -> bool {
        &&& !self.floating.contains(window)
        &&& !self.maximized.contains(window)
        &&& !self.pending_fullscreen.contains(window)
        &&& !self.pending_maximized.contains(window)
        &&& !self.transitions.contains_key(window)
        &&& !self.restores.contains_key(window)
        &&& !self.recenter.contains(window)
        &&& !self.recheck.contains(window)
        &&& !self.initial_configure.contains(window)
        &&& !self.configure_idle.contains(window)
        &&& !self.unmapped_marks.contains(window)
        &&& forall|i: int|
            0 <= i < self.owners.len() && (#[trigger] self.owners[i]) is Some
                ==> self.owners[i].unwrap().surface != window
    }
}

/// What keeps live windows of a state that keeps those of another, keeps those of that one.
pub proof fn live_chains(first: State, second: State, third: State)
    requires
        second.keeps_live(first),
        third.keeps_live(second),
    ensures
        third.keeps_live(first),
{
    assert forall|window: SurfaceId|
        #![trigger third.toplevel(window)]
        #![trigger first.toplevel(window)]
        third.toplevel(window).live == first.toplevel(window).live by {
        assert(second.toplevel(window).live == first.toplevel(window).live);
    }
    assert forall|i: int, window: SurfaceId|
        #![trigger third.mapped[i].contains(window)]
        #![trigger first.mapped[i].contains(window)]
        0 <= i < third.mapped.len() && first.toplevel(window).live implies third.mapped[i].contains(
        window,
    ) == first.mapped[i].contains(window) by {
        assert(second.toplevel(window).live);
        assert(second.mapped[i].contains(window) == first.mapped[i].contains(window));
    }
    assert forall|i: int, window: SurfaceId|
        #![trigger third.unmapped[i].contains(window)]
        #![trigger first.unmapped[i].contains(window)]
        0 <= i < third.unmapped.len() && first.toplevel(
            window,
        ).live implies third.unmapped[i].contains(window) == first.unmapped[i].contains(window) by {
        assert(second.toplevel(window).live);
        assert(second.unmapped[i].contains(window) == first.unmapped[i].contains(window));
    }
    assert forall|window: SurfaceId|
        #![trigger third.unmapped_marks.contains(window)]
        #![trigger first.unmapped_marks.contains(window)]
        first.toplevel(window).live implies third.unmapped_marks.contains(window)
        == first.unmapped_marks.contains(window) by {
        assert(second.toplevel(window).live);
        assert(second.unmapped_marks.contains(window) == first.unmapped_marks.contains(window));
    }
}

/// What keeps all lists keeps those of live windows.
pub proof fn lists_keep_live(before: State, after: State)
    requires
        after.keeps_lists(before),
    ensures
        after.keeps_live(before),
{
}

/// Forgetting windows that are not alive keeps the live ones, and leaves what is noted of the
/// others.
pub proof fn burying_keeps_live(state: State, dead: Seq<SurfaceId>)
    requires
        forall|i: int| 0 <= i < dead.len() ==> !state.toplevel(#[trigger] dead[i]).live,
    ensures
        state.all_buried(dead).keeps_live(state),
        forall|window: SurfaceId|
            state.unnoted(window) ==> #[trigger] state.all_buried(dead).unnoted(window),
        forall|window: SurfaceId|
            state.toplevel(window).live ==> #[trigger] state.all_buried(
                dead,
            ).initial_configure.contains(window) == state.initial_configure.contains(window),
        forall|window: SurfaceId|
            state.toplevel(window).live ==> #[trigger] state.all_buried(dead).recheck.contains(
                window,
            ) == state.recheck.contains(window),
    decreases dead.len(),
{
    if dead.len() > 0 {
        let rest = dead.drop_last();
        let gone = dead.last();
        assert forall|i: int| 0 <= i < rest.len() implies !state.toplevel(
            #[trigger] rest[i],
        ).live by {
            assert(rest[i] == dead[i]);
        }
        burying_keeps_live(state, rest);
        let before = state.all_buried(rest);
        let after = state.all_buried(dead);
        assert(!state.toplevel(dead[dead.len() - 1]).live);
        lifecycle::burying_keeps_sound(state, rest);
        lists::removed_keeps(before.mapped, gone);
        lists::removed_keeps(before.unmapped, gone);
        assert(after.mapped == lists::removed(before.mapped, gone));
        assert(after.unmapped == lists::removed(before.unmapped, gone));
        assert(after.unmapped_marks =~= before.unmapped_marks.remove(gone));
        assert(after.keeps_live(before));
        live_chains(state, before, after);
        lists::without_leaves(before.floating, gone);
        assert forall|window: SurfaceId| state.unnoted(window) implies #[trigger] after.unnoted(
            window,
        ) by {
            assert(before.unnoted(window));
            assert forall|i: int|
                0 <= i < after.owners.len() && (
                #[trigger] after.owners[i]) is Some implies after.owners[i].unwrap().surface
                != window by {
                assert(before.owners[i] is Some);
            }
        }
        assert forall|window: SurfaceId|
            state.toplevel(window).live implies #[trigger] after.initial_configure.contains(window)
            == state.initial_configure.contains(window) by {
            assert(before.initial_configure.contains(window) == state.initial_configure.contains(
                window,
            ));
        }
        assert forall|window: SurfaceId|
            state.toplevel(window).live implies #[trigger] after.recheck.contains(window)
            == state.recheck.contains(window) by {
            assert(before.recheck.contains(window) == state.recheck.contains(window));
        }
    }
}

/// Forgetting the dead keeps the live windows.
pub proof fn pruning_keeps_live(state: State)
    ensures
        state.pruned().keeps_live(state),
        forall|window: SurfaceId|
            state.unnoted(window) ==> #[trigger] state.pruned().unnoted(window),
        forall|window: SurfaceId|
            state.toplevel(window).live ==> #[trigger] state.pruned().initial_configure.contains(
                window,
            ) == state.initial_configure.contains(window),
        forall|window: SurfaceId|
            state.toplevel(window).live ==> #[trigger] state.pruned().recheck.contains(window)
                == state.recheck.contains(window),
{
    laws::dead_windows_are(state);
    let dead = state.dead_windows();
    assert forall|i: int| 0 <= i < dead.len() implies !state.toplevel(#[trigger] dead[i]).live by {
        assert(dead.contains(dead[i]));
    }
    burying_keeps_live(state, dead);
}

proof fn showing_keeps_notes(state: State, list: Seq<SurfaceId>)
    ensures
        state.all_shown(list).keeps_notes(state),
    decreases list.len(),
{
    if list.len() > 0 {
        showing_keeps_notes(state, list.drop_last());
    }
}

proof fn clearing_doubles_keeps_notes(state: State, list: Seq<SurfaceId>)
    ensures
        state.doubles_cleared(list).keeps_notes(state),
    decreases list.len(),
{
    if list.len() > 0 {
        clearing_doubles_keeps_notes(state, list.drop_last());
    }
}

proof fn raising_keeps_notes(state: State, list: Seq<SurfaceId>)
    ensures
        state.each_raised(list).keeps_notes(state),
    decreases list.len(),
{
    if list.len() > 0 {
        raising_keeps_notes(state, list.drop_last());
    }
}

proof fn restacking_keeps_notes(state: State)
    ensures
        state.restacked().keeps_notes(state),
{
    let stack = space::stack(state.elements);
    let tiled = state.sorted_out(stack, false);
    let floating = state.sorted_out(stack, true);
    raising_keeps_notes(state, tiled);
    raising_keeps_notes(state.each_raised(tiled), floating);
}

proof fn floating_keeps_notes(state: State, list: Seq<SurfaceId>)
    ensures
        state.floating_laid_out(list).keeps_notes(state),
    decreases list.len(),
{
    if list.len() > 0 {
        floating_keeps_notes(state, list.drop_last());
    }
}

proof fn tiling_keeps_notes(
    state: State,
    windows: Seq<SurfaceId>,
    area: Rectangle,
    tiles: Seq<WindowGeometry>,
    count: nat,
)
    ensures
        state.tiles_laid_out(windows, area, tiles, count).keeps_notes(state),
    decreases count,
{
    if count > 0 {
        tiling_keeps_notes(state, windows, area, tiles, (count - 1) as nat);
    }
}

proof fn fullscreen_keeps_notes(state: State, output: OutputId)
    ensures
        state.fullscreen_laid_out(output).0.keeps_notes(state),
{
}

proof fn windows_keep_notes(state: State, windows: Seq<SurfaceId>, area: Rectangle)
    ensures
        state.windows_laid_out(windows, area).keeps_notes(state),
{
    let floating = state.sorted_out(windows, true);
    floating_keeps_notes(state, floating);
    let placed = state.floating_laid_out(floating);
    restacking_keeps_notes(placed);
    let tiled = placed.sorted_out(windows, false);
    let tiles = space::tiles_for(placed.layouts, area.size, tiled.len());
    let count = if tiled.len() < tiles.len() {
        tiled.len()
    } else {
        tiles.len()
    };
    tiling_keeps_notes(placed, tiled, area, tiles, count);
    restacking_keeps_notes(placed.tiles_laid_out(tiled, area, tiles, count));
}

/// A layout changes nothing of what is noted of windows, but for those that it forgets.
pub proof fn layout_keeps_notes(state: State)
    ensures
        state.laid_out().0.keeps_notes(state.pruned()),
{
    reveal(State::laid_out);
    let pruned = state.pruned();
    let list = pruned.mapped[pruned.current as int];
    showing_keeps_notes(pruned, list);
    let all = pruned.all_shown(list);
    clearing_doubles_keeps_notes(all, all.buffered(space::stack(all.elements)));
    let shown = all.singled();
    let windows = shown.buffered(space::stack(shown.elements));
    if shown.outputs.len() > 0 {
        if let Some(whole) = shown.outputs[0].geometry {
            fullscreen_keeps_notes(shown, shown.outputs[0].id);
            let owned = shown.fullscreen_laid_out(shown.outputs[0].id).0;
            windows_keep_notes(
                owned,
                windows,
                crate::geometry::usable(shown.outputs[0].work_area, whole),
            );
        }
    }
}

proof fn telling_active_keeps_notes(
    state: State,
    list: Seq<SurfaceId>,
    focused: Option<SurfaceId>,
)
    ensures
        state.activation_told(list, focused).keeps_notes(state),
    decreases list.len(),
{
    if list.len() > 0 {
        telling_active_keeps_notes(state, list.drop_last(), focused);
    }
}

/// Giving the keyboard to a surface changes nothing of what is noted of windows.
pub proof fn focusing_keeps_notes(state: State, target: Option<SurfaceId>)
    ensures
        state.focus_set(target).keeps_notes(state),
{
    reveal(State::focus_set);
    let window = match target {
        Some(surface) => if state.has_window(surface) {
            Some(surface)
        } else {
            None
        },
        None => None,
    };
    let raised = match window {
        Some(window) => if state.on_screen(window) {
            state.raised_in_layer(window)
        } else {
            state
        },
        None => state,
    };
    if let Some(window) = window {
        restacking_keeps_notes(state.raised(window));
    }
    telling_active_keeps_notes(raised, space::stack(raised.elements), window);
}

/// Giving the keyboard to a window on the screen changes nothing of what is noted of windows.
pub proof fn refocusing_keeps_notes(state: State)
    ensures
        state.refocused().keeps_notes(state),
{
    reveal(State::refocused);
    focusing_keeps_notes(state, state.next_focus());
    telling_active_keeps_notes(state, space::stack(state.elements), state.keyboard_focus);
}

/// A layout leaves every live window on its own list.
pub proof fn layout_keeps_live(state: State)
    requires
        state.orderly(),
    ensures
        state.laid_out().0.keeps_live(state),
{
    laws::layout_stays_orderly(state);
    pruning_keeps_live(state);
    lists_keep_live(state.pruned(), state.laid_out().0);
    live_chains(state, state.pruned(), state.laid_out().0);
}

/// Giving a window what it asked for while it waited for the screen leaves every live window on its
/// own list.
pub proof fn pending_keeps_live(state: State, surface: SurfaceId)
    requires
        state.orderly(),
        state.has_window(surface),
    ensures
        state.pending_applied(surface).keeps_live(state),
{
    reveal(State::pending_applied);
    let clear = State {
        pending_fullscreen: state.pending_fullscreen.remove(surface),
        pending_maximized: state.pending_maximized.remove(surface),
        ..state
    };
    assert(clear.keeps_places(state));
    laws::telling_stays_orderly(state, clear);
    fullscreen_laws::raising_stays_orderly(clear, surface);
    laws::keeping_chains(state, clear, clear.raised(surface));
    laws::orderly_by_lists(state, clear.raised(surface));
    lists_keep_live(state, clear);
    lists_keep_live(state, clear.raised(surface));
    layout_keeps_live(clear.raised(surface));
    live_chains(state, clear.raised(surface), clear.raised(surface).laid_out().0);
}

/// Completing a change of fullscreen leaves every live window on its own list.
pub proof fn transition_keeps_live(state: State, surface: SurfaceId)
    requires
        state.orderly(),
    ensures
        state.transition_applied(surface).keeps_live(state),
{
    reveal(State::transition_applied);
    let clear = state.transition_cleared(surface);
    assert(clear.keeps_places(state));
    laws::telling_stays_orderly(state, clear);
    lists_keep_live(state, clear);
    if state.transitions.contains_key(surface) && state.has_window(surface) && state.on_screen(
        surface,
    ) {
        match state.transitions[surface] {
            PendingFullscreenTransition::Enter { requested_output } => {
                fullscreen_laws::entering_stays_orderly(clear, surface, requested_output);
                let entered = clear.fullscreen_entered(surface, requested_output);
                lists_keep_live(clear, entered);
                live_chains(state, clear, entered);
                fullscreen_laws::raising_stays_orderly(entered, surface);
                let raised = entered.raised(surface);
                laws::orderly_by_lists(entered, raised);
                lists_keep_live(entered, raised);
                live_chains(state, entered, raised);
                layout_keeps_live(entered);
                layout_keeps_live(raised);
                live_chains(state, entered, entered.laid_out().0);
                live_chains(state, raised, raised.laid_out().0);
            },
            PendingFullscreenTransition::Exit => {
                fullscreen_laws::finalizing_stays_orderly(clear, surface);
                let exited = clear.exit_finalized(surface);
                lists_keep_live(clear, exited);
                live_chains(state, clear, exited);
                layout_keeps_live(exited);
                live_chains(state, exited, exited.laid_out().0);
            },
        }
    }
}

} // verus!
