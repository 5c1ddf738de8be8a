//! Laws of the requests: whatever a client asks, the state stays orderly.

use crate::handlers::layer_shell::LayerAction;
use crate::state::fullscreen_laws;
use crate::state::keeping;
use crate::state::laws;
use crate::state::lists;
use crate::state::lists::SurfaceId;
use crate::state::raven::{State, WORKSPACE_COUNT};
use crate::state::rules::{Naming, NewWindowRuleDecision};
use crate::state::showing;
use crate::state::space;
use crate::state::staying;
use crate::state::toplevel::{OutputId, ToplevelState};
use crate::state::windows;
use crate::state::workspace_laws;
use vstd::prelude::*;

verus! {

/// A state without a window that an orderly one has is orderly.
pub proof fn without_stays_orderly(before: State, after: State, window: SurfaceId)
    requires
        before.orderly(),
        after.mapped == lists::removed(before.mapped, window),
        after.unmapped == lists::removed(before.unmapped, window),
        after.unmapped_marks == before.unmapped_marks.remove(window),
        after.owners == windows::disowned(before.owners, window),
        after.current == before.current,
        after.outputs == before.outputs,
        after.lives_like(before),
        space::one_each(after.elements),
        forall|other: SurfaceId| #[trigger]
            space::stack(after.elements).contains(other) ==> other != window && space::stack(
                before.elements,
            ).contains(other),
    ensures
        after.orderly(),
        !after.has_window(window),
        !after.unmapped_marks.contains(window),
{
    lists::removed_keeps(before.mapped, window);
    lists::removed_keeps(before.unmapped, window);
    space::place_of_finds(after.elements, window);
    assert forall|other: SurfaceId| #[trigger] lists::listed(after.mapped, other) implies lists::listed(
        before.mapped,
        other,
    ) && other != window by {
        let i = choose|i: int|
            0 <= i < after.mapped.len() && #[trigger] after.mapped[i].contains(other);
        assert(before.mapped[i].contains(other));
    }
    assert forall|other: SurfaceId| #[trigger]
        lists::listed(after.unmapped, other) implies lists::listed(before.unmapped, other)
        && other != window by {
        let i = choose|i: int|
            0 <= i < after.unmapped.len() && #[trigger] after.unmapped[i].contains(other);
        assert(before.unmapped[i].contains(other));
    }
    assert forall|other: SurfaceId| #[trigger]
        space::stack(after.elements).contains(other) implies lists::listed(after.mapped, other) by {
        assert(lists::listed(before.mapped, other));
        let i = choose|i: int|
            0 <= i < before.mapped.len() && #[trigger] before.mapped[i].contains(other);
        assert(after.mapped[i].contains(other));
    }
    assert forall|other: SurfaceId| #[trigger]
        after.unmapped_marks.contains(other) && after.toplevel(other).live implies lists::listed(
        after.unmapped,
        other,
    ) by {
        assert(before.toplevel(other).live);
        assert(lists::listed(before.unmapped, other));
        let i = choose|i: int|
            0 <= i < before.unmapped.len() && #[trigger] before.unmapped[i].contains(other);
        assert(after.unmapped[i].contains(other));
    }
    assert forall|i: int|
        0 <= i < after.owners.len() && (#[trigger] after.owners[i]) is Some implies after.workspace_holds(
        i,
        after.owners[i].unwrap().surface,
    ) && after.owners[i] == before.owners[i] by {
        assert(before.owners[i] is Some);
        let surface = before.owners[i].unwrap().surface;
        assert(before.workspace_holds(i, surface));
        if 0 <= i < before.mapped.len() && before.mapped[i].contains(surface) {
            assert(after.mapped[i].contains(surface));
        } else {
            assert(after.unmapped[i].contains(surface));
        }
    }
}

/// The destruction of a toplevel removes it from both stores, takes it off the screen, clears all
/// that is noted of it, its fullscreen included, and leaves the state orderly. A surface that has no
/// window is not looked for among the floating.
pub proof fn destruction_forgets(state: State, surface: SurfaceId, outputs: Seq<OutputId>)
    requires
        state.orderly(),
    ensures
        state.destroyed(surface, outputs).orderly(),
        !state.destroyed(surface, outputs).has_window(surface),
        !lists::listed(state.destroyed(surface, outputs).mapped, surface),
        !lists::listed(state.destroyed(surface, outputs).unmapped, surface),
        !state.destroyed(surface, outputs).on_screen(surface),
        state.has_window(surface) || !state.floats(surface) ==> state.destroyed(
            surface,
            outputs,
        ).unnoted(surface),
{
    reveal(State::destroyed);
    let forgotten = state.forgotten(surface);
    let cleared = State {
        recheck: forgotten.recheck.remove(surface),
        recenter: forgotten.recenter.remove(surface),
        ..forgotten
    };
    lists::without_leaves(state.floating, surface);
    space::place_of_finds(state.elements, surface);
    if !state.has_window(surface) {
        workspace_laws::removing_nothing(state.mapped, surface);
        workspace_laws::removing_nothing(state.unmapped, surface);
        without_stays_orderly(state, cleared, surface);
    } else if state.unmapped_marks.contains(surface) || !state.on_screen(surface) {
        let gone = cleared.without_window(surface);
        assert(gone.owners =~= windows::disowned(state.owners, surface));
        assert(gone.unmapped_marks =~= state.unmapped_marks.remove(surface));
        if state.unmapped_marks.contains(surface) {
            assert(!lists::listed(state.mapped, surface));
        }
        without_stays_orderly(state, gone, surface);
    } else {
        space::lifted_leaves(state.elements, surface);
        let gone = State {
            elements: space::lifted(cleared.elements, surface),
            ..cleared
        }.without_window(surface);
        assert(gone.owners =~= windows::disowned(state.owners, surface));
        assert(gone.unmapped_marks =~= state.unmapped_marks.remove(surface));
        without_stays_orderly(state, gone, surface);
        laws::pruning_stays_orderly(gone);
        laws::layout_stays_orderly(gone);
        let laid_out = gone.laid_out().0;
        fullscreen_laws::refocusing_stays_orderly(laid_out);
        let refocused = laid_out.refocused();
        assert(gone.unnoted(surface));
        staying::pruning_keeps_live(gone);
        assert(gone.pruned().unnoted(surface));
        staying::layout_keeps_notes(gone);
        staying::refocusing_keeps_notes(laid_out);
        let after = refocused.redraw_asked(outputs);
        assert(after.keeps_places(refocused));
        laws::telling_stays_orderly(refocused, after);
        laws::burying_all_stays_orderly(gone, gone.dead_windows());
        space::place_of_finds(after.elements, surface);
        if space::stack(after.elements).contains(surface) {
            assert(lists::listed(after.mapped, surface));
        }
        laws::keeping_chains(gone.pruned(), laid_out, refocused);
        lists::index_of_finds(after.mapped, surface);
        assert(!lists::listed(gone.mapped, surface));
        assert(!lists::listed(gone.unmapped, surface));
        assert(!lists::listed(after.mapped, surface));
        assert(!lists::listed(after.unmapped, surface));
        assert(after.unnoted(surface)) by {
            assert forall|i: int|
                0 <= i < after.owners.len() && (
                #[trigger] after.owners[i]) is Some implies after.owners[i].unwrap().surface
                != surface by {
                assert(after.workspace_holds(i, after.owners[i].unwrap().surface));
                if after.owners[i].unwrap().surface == surface {
                    if 0 <= i < after.mapped.len() && after.mapped[i].contains(surface) {
                        assert(lists::listed(after.mapped, surface));
                    } else {
                        assert(after.unmapped[i].contains(surface));
                        assert(lists::listed(after.unmapped, surface));
                    }
                }
            }
        }
    }
}

/// A window that is put among the unmapped with the mark leaves the state orderly.
pub proof fn taking_in_stays_orderly(before: State, after: State, surface: SurfaceId, index: int)
    requires
        before.orderly(),
        !before.has_window(surface),
        0 <= index < WORKSPACE_COUNT,
        after.mapped == before.mapped,
        after.unmapped == lists::added(before.unmapped, index, surface),
        after.unmapped_marks == before.unmapped_marks.insert(surface),
        after.owners == before.owners,
        after.elements == before.elements,
        after.current == before.current,
        after.outputs == before.outputs,
        after.lives_like(before),
    ensures
        after.orderly(),
        after.has_window(surface),
        after.workspace_of(surface) == Some(index as usize),
        !after.on_screen(surface),
{
    lists::added_keeps(before.unmapped, index, surface);
    assert(after.unmapped[index].contains(surface));
    assert(lists::listed(after.unmapped, surface));
    assert forall|other: SurfaceId| other != surface implies (lists::listed(after.unmapped, other)
        <==> lists::listed(before.unmapped, other)) by {
        if lists::listed(after.unmapped, other) {
            let i = choose|i: int|
                0 <= i < after.unmapped.len() && #[trigger] after.unmapped[i].contains(other);
            assert(before.unmapped[i].contains(other));
        }
        if lists::listed(before.unmapped, other) {
            let i = choose|i: int|
                0 <= i < before.unmapped.len() && #[trigger] before.unmapped[i].contains(other);
            assert(after.unmapped[i].contains(other));
        }
    }
    assert forall|other: SurfaceId| #[trigger]
        after.unmapped_marks.contains(other) && after.toplevel(other).live implies lists::listed(
        after.unmapped,
        other,
    ) by {
        assert(before.toplevel(other).live);
    }
    assert forall|i: int|
        0 <= i < after.owners.len() && (#[trigger] after.owners[i]) is Some implies after.workspace_holds(
        i,
        after.owners[i].unwrap().surface,
    ) by {
        let owner = before.owners[i].unwrap().surface;
        assert(before.workspace_holds(i, owner));
        keeping::holder_is_only(before, owner, i);
        if !(0 <= i < before.mapped.len() && before.mapped[i].contains(owner)) {
            assert(after.unmapped[i].contains(owner));
        }
    }
    lists::index_of_finds(after.mapped, surface);
    lists::index_of_is_only(after.unmapped, surface, index);
}

pub proof fn kept_window_waits(state: State, surface: SurfaceId, naming: Naming)
    requires
        state.orderly(),
        !state.has_window(surface),
        state.decision(naming).workspace_index < WORKSPACE_COUNT,
    ensures
        ({
            let kept = state.new_window_kept(surface, naming);
            &&& kept.orderly()
            &&& kept.workspace_of(surface) == Some(state.decision(naming).workspace_index)
            &&& kept.unmapped_marks.contains(surface)
            &&& kept.initial_configure.contains(surface)
            &&& !kept.on_screen(surface)
        }),
{
    let kept = state.new_window_kept(surface, naming);
    let decision = state.decision(naming);
    let floating = state.effective_floating(surface, naming, decision.floating);
    let decorated = state.decorated(surface, state.settings.general.no_csd && !floating);
    assert(decorated.keeps_places(state));
    assert forall|other: SurfaceId|
        #![trigger kept.toplevel(other)]
        #![trigger state.toplevel(other)]
        kept.toplevel(other).live == state.toplevel(other).live by {
        assert(decorated.toplevel(other).live == state.toplevel(other).live);
    }
    taking_in_stays_orderly(state, kept, surface, decision.workspace_index as int);
}

/// A new window leaves the state orderly.
pub proof fn new_window_stays_orderly(state: State, surface: SurfaceId, naming: Naming)
    requires
        state.orderly(),
        state.decision(naming).workspace_index < WORKSPACE_COUNT,
    ensures
        state.new_window(surface, naming).orderly(),
{
    reveal(State::new_window);
    if state.has_window(surface) {
        keeping::asking_keeps_places(state, surface, state.toplevel(surface).pending, None);
        laws::telling_stays_orderly(state, state.configured(surface));
    } else {
        kept_window_waits(state, surface, naming);
        let kept = state.new_window_kept(surface, naming);
        lists::index_of_finds(kept.mapped, surface);
        lists::index_of_finds(kept.unmapped, surface);
        fullscreen_laws::entering_stays_orderly(kept, surface, None);
        let full = if state.decision(naming).fullscreen {
            kept.fullscreen_entered(surface, None)
        } else {
            kept
        };
        let noted = State { recheck: full.recheck.insert(surface), ..full };
        assert(noted.keeps_places(full));
        laws::telling_stays_orderly(full, noted);
        laws::layout_stays_orderly(full);
        fullscreen_laws::focusing_stays_orderly(full.laid_out().0, Some(surface));
    }
}

/// A new window of a live client is kept among the unmapped of the workspace that the rules say and
/// nowhere else, carries the mark, waits for its first configure, and is not on the screen. Where the
/// rules have to wait for its names, they are looked at again.
pub proof fn new_window_waits(state: State, surface: SurfaceId, naming: Naming)
    requires
        state.orderly(),
        !state.has_window(surface),
        state.toplevel(surface).live,
        state.decision(naming).workspace_index < WORKSPACE_COUNT,
    ensures
        ({
            let new = state.new_window(surface, naming);
            &&& new.orderly()
            &&& new.unmapped[state.decision(naming).workspace_index as int].contains(surface)
            &&& new.workspace_of(surface) == Some(state.decision(naming).workspace_index)
            &&& !lists::listed(new.mapped, surface)
            &&& new.unmapped_marks.contains(surface)
            &&& new.initial_configure.contains(surface)
            &&& state.defers_rules(naming) ==> new.recheck.contains(surface)
            &&& !new.on_screen(surface)
        }),
{
    new_window_stays_orderly(state, surface, naming);
    reveal(State::new_window);
    kept_window_waits(state, surface, naming);
    let index = state.decision(naming).workspace_index as int;
    let kept = state.new_window_kept(surface, naming);
    assert(kept.toplevel(surface).live) by {
        let floating = state.effective_floating(
            surface,
            naming,
            state.decision(naming).floating,
        );
        let decorated = state.decorated(surface, state.settings.general.no_csd && !floating);
        assert(decorated.keeps_places(state));
        assert(decorated.toplevel(surface).live == state.toplevel(surface).live);
        assert(kept.toplevel(surface).live == decorated.toplevel(surface).live);
    }
    lists::index_of_finds(kept.mapped, surface);
    lists::index_of_finds(kept.unmapped, surface);
    assert(lists::listed(kept.unmapped, surface));
    assert(!lists::listed(kept.mapped, surface));
    assert(kept.unmapped[index].contains(surface));
    fullscreen_laws::entering_stays_orderly(kept, surface, None);
    let full = if state.decision(naming).fullscreen {
        kept.fullscreen_entered(surface, None)
    } else {
        kept
    };
    assert(full.initial_configure == kept.initial_configure) by {
        reveal(State::fullscreen_entered);
    }
    staying::lists_keep_live(kept, full);
    assert(full.toplevel(surface).live == kept.toplevel(surface).live);
    let laid_out = full.laid_out().0;
    laws::layout_stays_orderly(full);
    staying::layout_keeps_live(full);
    staying::layout_keeps_notes(full);
    staying::pruning_keeps_live(full);
    assert(full.pruned().initial_configure.contains(surface));
    let focused = laid_out.focus_set(Some(surface));
    fullscreen_laws::focusing_stays_orderly(laid_out, Some(surface));
    staying::focusing_keeps_notes(laid_out, Some(surface));
    staying::lists_keep_live(laid_out, focused);
    staying::live_chains(full, laid_out, focused);
    let new = state.new_window(surface, naming);
    assert(new.unmapped[index].contains(surface));
    assert(lists::listed(new.unmapped, surface));
    assert(new.unmapped_marks.contains(surface));
    assert(!lists::listed(new.mapped, surface));
    lists::index_of_finds(new.mapped, surface);
    lists::index_of_is_only(new.unmapped, surface, index);
    space::place_of_finds(new.elements, surface);
}

/// Answering a surface tells it only what it is asked for.
proof fn answering_keeps_places(state: State, surface: SurfaceId)
    ensures
        state.answered(surface).keeps_places(state),
        state.answered_if_changed(surface).keeps_places(state),
{
    keeping::asking_keeps_places(state, surface, state.toplevel(surface).pending, None);
}

/// Maximizing a window, at once or once it is on the screen.
pub proof fn maximizing_stays_orderly(state: State, surface: SurfaceId)
    requires
        state.orderly(),
    ensures
        state.maximize_noted(surface).orderly_like(state),
        state.maximize_requested(surface).orderly(),
        state.foreign_maximized(surface).orderly(),
{
    let settled = state.settled(surface);
    let noted = State {
        pending_maximized: if state.on_screen(surface) {
            settled.pending_maximized.remove(surface)
        } else {
            settled.pending_maximized.insert(surface)
        },
        ..settled
    };
    assert(noted.keeps_places(state));
    laws::telling_stays_orderly(state, noted);
    fullscreen_laws::maximizing_keeps_places(noted, surface, true);
    let set = state.maximize_noted(surface);
    laws::telling_stays_orderly(noted, set);
    laws::keeping_chains(state, noted, set);
    fullscreen_laws::raising_stays_orderly(set, surface);
    answering_keeps_places(state, surface);
    laws::telling_stays_orderly(state, state.answered(surface));
}

/// Making a window not maximized.
pub proof fn unmaximizing_stays_orderly(state: State, surface: SurfaceId)
    requires
        state.orderly(),
    ensures
        state.unmaximize_requested(surface).orderly(),
        state.foreign_unmaximized(surface).orderly(),
{
    let noted = State { pending_maximized: state.pending_maximized.remove(surface), ..state };
    assert(noted.keeps_places(state));
    laws::telling_stays_orderly(state, noted);
    fullscreen_laws::maximizing_keeps_places(noted, surface, false);
    let set = noted.maximized_set(surface, false);
    laws::telling_stays_orderly(noted, set);
    laws::layout_stays_orderly(set);
    answering_keeps_places(state, surface);
    laws::telling_stays_orderly(state, state.answered(surface));
}

/// Waiting to be fullscreen, or not to be, until the window is on the screen.
proof fn awaiting_stays_orderly(state: State, surface: SurfaceId)
    requires
        state.orderly(),
    ensures
        state.fullscreen_awaited(surface).answered(surface).orderly(),
        state.fullscreen_awaited(surface).answered_if_changed(surface).orderly(),
        state.windowed_awaited(surface).answered(surface).orderly(),
        state.windowed_awaited(surface).answered_if_changed(surface).orderly(),
{
    let noted = State {
        pending_fullscreen: state.pending_fullscreen.insert(surface),
        ..state
    };
    assert(noted.keeps_places(state));
    laws::telling_stays_orderly(state, noted);
    let full = state.fullscreen_awaited(surface);
    assert(full.keeps_places(noted));
    laws::telling_stays_orderly(noted, full);
    answering_keeps_places(full, surface);
    laws::telling_stays_orderly(full, full.answered(surface));
    laws::telling_stays_orderly(full, full.answered_if_changed(surface));
    let plain = state.windowed_awaited(surface);
    assert(plain.keeps_places(state));
    laws::telling_stays_orderly(state, plain);
    answering_keeps_places(plain, surface);
    laws::telling_stays_orderly(plain, plain.answered(surface));
    laws::telling_stays_orderly(plain, plain.answered_if_changed(surface));
}

/// A request to be fullscreen leaves the state orderly.
pub proof fn fullscreen_request_stays_orderly(state: State, surface: SurfaceId)
    requires
        state.orderly(),
    ensures
        state.fullscreen_requested(surface).orderly(),
{
    reveal(State::fullscreen_requested);
    answering_keeps_places(state, surface);
    laws::telling_stays_orderly(state, state.answered_if_changed(surface));
    if state.has_window(surface) {
        let settled = state.settled(surface);
        assert(settled.keeps_places(state));
        laws::telling_stays_orderly(state, settled);
        awaiting_stays_orderly(settled, surface);
        let clear = State {
            pending_fullscreen: settled.pending_fullscreen.remove(surface),
            ..settled
        };
        assert(clear.keeps_places(settled));
        laws::telling_stays_orderly(settled, clear);
        fullscreen_laws::entering_stays_orderly(clear, surface, None);
        let entered = clear.fullscreen_entered(surface, None);
        fullscreen_laws::raising_stays_orderly(entered, surface);
        laws::layout_stays_orderly(entered.raised(surface));
        fullscreen_laws::setting_stays_orderly(entered, surface, true, None);
    }
}

/// A request not to be fullscreen leaves the state orderly.
pub proof fn unfullscreen_request_stays_orderly(state: State, surface: SurfaceId)
    requires
        state.orderly(),
    ensures
        state.unfullscreen_requested(surface).orderly(),
        state.foreign_windowed(surface).orderly(),
{
    reveal(State::unfullscreen_requested);
    reveal(State::foreign_windowed);
    answering_keeps_places(state, surface);
    laws::telling_stays_orderly(state, state.answered_if_changed(surface));
    if state.has_window(surface) {
        let clear = State {
            pending_fullscreen: state.pending_fullscreen.remove(surface),
            ..state
        };
        assert(clear.keeps_places(state));
        laws::telling_stays_orderly(state, clear);
        awaiting_stays_orderly(clear, surface);
        fullscreen_laws::exiting_stays_orderly(clear, surface);
        laws::layout_stays_orderly(clear.fullscreen_exited(surface));
        fullscreen_laws::setting_stays_orderly(clear, surface, false, None);
    }
}

/// A window that leaves the unmapped for the mapped of its workspace, and its mark, leaves the state
/// orderly.
pub proof fn mapped_is_orderly(state: State, surface: SurfaceId)
    requires
        state.orderly(),
        state.has_window(surface),
        state.unmapped_marks.contains(surface),
    ensures
        ({
            let promoted = state.promoted(surface);
            State {
                unmapped_marks: promoted.unmapped_marks.remove(surface),
                ..promoted
            }.orderly()
        }),
        lists::listed(state.promoted(surface).mapped, surface),
{
    space::place_of_finds(state.elements, surface);
    assert(!lists::listed(state.mapped, surface));
    assert(lists::listed(state.unmapped, surface));
    lists::index_of_finds(state.unmapped, surface);
    lists::index_of_finds(state.mapped, surface);
    let index = lists::index_of(state.unmapped, surface).unwrap() as int;
    lists::removed_keeps(state.unmapped, surface);
    lists::added_keeps(state.mapped, index, surface);
    let promoted = state.promoted(surface);
    let mapped = State { unmapped_marks: promoted.unmapped_marks.remove(surface), ..promoted };
    assert(mapped.mapped[index].contains(surface));
    assert(lists::listed(mapped.mapped, surface));
    assert forall|other: SurfaceId| other != surface implies (lists::listed(mapped.mapped, other)
        <==> lists::listed(state.mapped, other)) by {
        if lists::listed(mapped.mapped, other) {
            let i = choose|i: int|
                0 <= i < mapped.mapped.len() && #[trigger] mapped.mapped[i].contains(other);
            assert(state.mapped[i].contains(other));
        }
        if lists::listed(state.mapped, other) {
            let i = choose|i: int|
                0 <= i < state.mapped.len() && #[trigger] state.mapped[i].contains(other);
            assert(mapped.mapped[i].contains(other));
        }
    }
    assert forall|other: SurfaceId| #[trigger] lists::listed(mapped.unmapped, other) <==> (
    lists::listed(state.unmapped, other) && other != surface) by {
        if lists::listed(mapped.unmapped, other) {
            let i = choose|i: int|
                0 <= i < mapped.unmapped.len() && #[trigger] mapped.unmapped[i].contains(other);
            assert(state.unmapped[i].contains(other));
        }
        if lists::listed(state.unmapped, other) && other != surface {
            let i = choose|i: int|
                0 <= i < state.unmapped.len() && #[trigger] state.unmapped[i].contains(other);
            assert(mapped.unmapped[i].contains(other));
        }
    }
    assert forall|other: SurfaceId| #[trigger]
        mapped.unmapped_marks.contains(other) && mapped.toplevel(other).live implies lists::listed(
        mapped.unmapped,
        other,
    ) by {
        assert(state.toplevel(other).live);
    }
    assert forall|i: int|
        0 <= i < mapped.owners.len() && (#[trigger] mapped.owners[i]) is Some implies mapped.workspace_holds(
        i,
        mapped.owners[i].unwrap().surface,
    ) by {
        let owner = state.owners[i].unwrap().surface;
        assert(state.workspace_holds(i, owner));
        if owner == surface {
            keeping::holder_is_only(state, surface, i);
            assert(state.workspace_holds(index, surface));
        } else if 0 <= i < state.mapped.len() && state.mapped[i].contains(owner) {
            assert(mapped.mapped[i].contains(owner));
        } else {
            assert(mapped.unmapped[i].contains(owner));
        }
    }
}

/// A window that gets its first buffer is mapped, and the state stays orderly.
pub proof fn first_mapping_stays_orderly(state: State, surface: SurfaceId)
    requires
        state.orderly(),
        state.has_window(surface),
        state.unmapped_marks.contains(surface),
    ensures
        state.first_mapped(surface).orderly(),
        state.first_mapped(surface).settings == state.settings,
{
    mapped_is_orderly(state, surface);
    let promoted = state.promoted(surface);
    let mapped = State { unmapped_marks: promoted.unmapped_marks.remove(surface), ..promoted };
    let rect = mapped.initial_rect(surface);
    keeping::mapping_keeps(mapped, surface, rect, false);
    let shown = mapped.mapped_to(surface, rect, false);
    laws::orderly_by_lists(mapped, shown);
    fullscreen_laws::pending_stays_orderly(shown, surface);
    laws::layout_stays_orderly(shown.pending_applied(surface));
}

/// A window whose root surface loses its buffer goes back to the unmapped, and the state stays
/// orderly.
pub proof fn losing_root_stays_orderly(state: State, surface: SurfaceId, naming: Naming)
    requires
        state.orderly(),
        lists::listed(state.mapped, surface),
    ensures
        state.root_lost(surface, naming).orderly(),
{
    lists::index_of_finds(state.mapped, surface);
    lists::index_of_finds(state.unmapped, surface);
    let index = lists::index_of(state.mapped, surface).unwrap() as int;
    keeping::unmapping_keeps(state, surface);
    let off = state.unmapped_window(surface);
    let lost = state.root_lost(surface, naming);
    lists::removed_keeps(state.mapped, surface);
    lists::added_keeps(state.unmapped, index, surface);
    space::place_of_finds(off.elements, surface);
    assert(lost.unmapped[index].contains(surface));
    assert(lists::listed(lost.unmapped, surface));
    assert forall|other: SurfaceId| other != surface implies (lists::listed(lost.unmapped, other)
        <==> lists::listed(state.unmapped, other)) by {
        if lists::listed(lost.unmapped, other) {
            let i = choose|i: int|
                0 <= i < lost.unmapped.len() && #[trigger] lost.unmapped[i].contains(other);
            assert(state.unmapped[i].contains(other));
        }
        if lists::listed(state.unmapped, other) {
            let i = choose|i: int|
                0 <= i < state.unmapped.len() && #[trigger] state.unmapped[i].contains(other);
            assert(lost.unmapped[i].contains(other));
        }
    }
    assert forall|other: SurfaceId| #[trigger] lists::listed(lost.mapped, other) <==> (
    lists::listed(state.mapped, other) && other != surface) by {
        if lists::listed(lost.mapped, other) {
            let i = choose|i: int|
                0 <= i < lost.mapped.len() && #[trigger] lost.mapped[i].contains(other);
            assert(state.mapped[i].contains(other));
        }
        if lists::listed(state.mapped, other) && other != surface {
            let i = choose|i: int|
                0 <= i < state.mapped.len() && #[trigger] state.mapped[i].contains(other);
            assert(lost.mapped[i].contains(other));
        }
    }
    assert forall|other: SurfaceId| #[trigger]
        space::stack(lost.elements).contains(other) implies lists::listed(lost.mapped, other) by {
        assert(lists::listed(off.mapped, other));
    }
    assert forall|other: SurfaceId| #[trigger]
        lost.unmapped_marks.contains(other) && lost.toplevel(other).live implies lists::listed(
        lost.unmapped,
        other,
    ) by {
        assert(state.toplevel(other).live);
    }
    assert forall|i: int|
        0 <= i < lost.owners.len() && (#[trigger] lost.owners[i]) is Some implies lost.workspace_holds(
        i,
        lost.owners[i].unwrap().surface,
    ) by {
        let owner = state.owners[i].unwrap().surface;
        assert(state.workspace_holds(i, owner));
        if owner == surface {
            keeping::holder_is_only(state, surface, i);
            assert(state.workspace_holds(index, surface));
        } else if 0 <= i < state.mapped.len() && state.mapped[i].contains(owner) {
            assert(lost.mapped[i].contains(owner));
        } else {
            assert(lost.unmapped[i].contains(owner));
        }
    }
}

/// The commit of a root surface leaves the state orderly.
pub proof fn root_commit_stays_orderly(state: State, surface: SurfaceId, naming: Naming)
    requires
        state.orderly(),
    ensures
        state.root_committed(surface, naming).orderly(),
        state.root_committed(surface, naming).settings == state.settings,
{
    reveal(State::root_committed);
    if state.has_window(surface) {
        if state.unmapped_marks.contains(surface) {
            first_mapping_stays_orderly(state, surface);
            let noted = State { configure_idle: state.configure_idle.insert(surface), ..state };
            assert(noted.keeps_places(state));
            laws::telling_stays_orderly(state, noted);
        } else if lists::listed(state.mapped, surface) {
            losing_root_stays_orderly(state, surface, naming);
            let lost = state.root_lost(surface, naming);
            laws::layout_stays_orderly(lost);
            fullscreen_laws::refocusing_stays_orderly(lost.laid_out().0);
        }
    }
}

/// With the first buffer of its root surface, the window of a live client is mapped on the workspace
/// where it waited and on no other list, and loses its mark. It comes onto the screen only if that
/// workspace is current. Rules that waited are looked at after that.
pub proof fn first_buffer_maps(state: State, surface: SurfaceId, naming: Naming)
    requires
        state.orderly(),
        state.has_window(surface),
        state.unmapped_marks.contains(surface),
        state.toplevel(surface).has_buffer,
        state.toplevel(surface).live,
    ensures
        lists::index_of(state.unmapped, surface) is Some,
        ({
            let index = lists::index_of(state.unmapped, surface).unwrap();
            let after = state.root_committed(surface, naming);
            &&& after.orderly()
            &&& index < after.mapped.len()
            &&& after.mapped[index as int].contains(surface)
            &&& after.workspace_of(surface) == Some(index)
            &&& !lists::listed(after.unmapped, surface)
            &&& !after.unmapped_marks.contains(surface)
            &&& after.on_screen(surface) ==> index == state.current
            &&& after.current == state.current
            &&& after.toplevel(surface).live
        }),
{
    root_commit_stays_orderly(state, surface, naming);
    first_mapping_stays_orderly(state, surface);
    reveal(State::root_committed);
    space::place_of_finds(state.elements, surface);
    lists::index_of_finds(state.unmapped, surface);
    lists::index_of_finds(state.mapped, surface);
    let index = lists::index_of(state.unmapped, surface).unwrap() as int;
    lists::removed_keeps(state.unmapped, surface);
    lists::added_keeps(state.mapped, index, surface);
    let promoted = state.promoted(surface);
    let mapped = State { unmapped_marks: promoted.unmapped_marks.remove(surface), ..promoted };
    assert(mapped.mapped[index].contains(surface));
    assert(mapped.toplevel(surface).live);
    let after = state.root_committed(surface, naming);
    if mapped.workspace_of(surface) == Some(mapped.current) {
        mapped_is_orderly(state, surface);
        let rect = mapped.initial_rect(surface);
        keeping::mapping_keeps(mapped, surface, rect, false);
        let shown = mapped.mapped_to(surface, rect, false);
        laws::orderly_by_lists(mapped, shown);
        assert(lists::listed(shown.mapped, surface));
        lists::index_of_finds(shown.mapped, surface);
        fullscreen_laws::pending_stays_orderly(shown, surface);
        let given = shown.pending_applied(surface);
        staying::lists_keep_live(mapped, shown);
        staying::pending_keeps_live(shown, surface);
        staying::layout_keeps_live(given);
        laws::layout_stays_orderly(given);
        staying::live_chains(mapped, shown, given);
        staying::live_chains(mapped, given, given.laid_out().0);
        assert(after.mapped[index].contains(surface));
    }
    assert(lists::listed(after.mapped, surface));
    assert(!lists::listed(after.unmapped, surface));
    assert(!after.unmapped_marks.contains(surface));
    lists::index_of_is_only(after.mapped, surface, index);
    lists::index_of_is_only(mapped.mapped, surface, index);
}

/// When its root surface loses its buffer, the window of a live client leaves the screen, goes back
/// to the unmapped of its workspace and to no other list, carries the mark, and waits for its first
/// configure. Where the rules have to wait for its names, they are looked at again.
pub proof fn lost_buffer_unmaps(state: State, surface: SurfaceId, naming: Naming)
    requires
        state.orderly(),
        state.has_window(surface),
        lists::listed(state.mapped, surface),
        !state.toplevel(surface).has_buffer,
        state.toplevel(surface).live,
    ensures
        lists::index_of(state.mapped, surface) is Some,
        ({
            let index = lists::index_of(state.mapped, surface).unwrap();
            let after = state.root_committed(surface, naming);
            &&& after.orderly()
            &&& !after.on_screen(surface)
            &&& !lists::listed(after.mapped, surface)
            &&& index < after.unmapped.len()
            &&& after.unmapped[index as int].contains(surface)
            &&& after.workspace_of(surface) == Some(index)
            &&& after.unmapped_marks.contains(surface)
            &&& after.initial_configure.contains(surface)
            &&& state.defers_rules(naming) ==> after.recheck.contains(surface)
            &&& !after.toplevel(surface).has_buffer
        }),
{
    root_commit_stays_orderly(state, surface, naming);
    losing_root_stays_orderly(state, surface, naming);
    reveal(State::root_committed);
    lists::index_of_finds(state.mapped, surface);
    lists::index_of_finds(state.unmapped, surface);
    let index = lists::index_of(state.mapped, surface).unwrap() as int;
    lists::removed_keeps(state.mapped, surface);
    lists::added_keeps(state.unmapped, index, surface);
    let lost = state.root_lost(surface, naming);
    assert(lost.unmapped[index].contains(surface));
    assert(lost.toplevel(surface).live && !lost.toplevel(surface).has_buffer);
    let laid_out = lost.laid_out().0;
    let after = laid_out.refocused();
    laws::layout_stays_orderly(lost);
    staying::layout_keeps_live(lost);
    staying::layout_keeps_notes(lost);
    staying::pruning_keeps_live(lost);
    assert(lost.pruned().initial_configure.contains(surface));
    assert(lost.pruned().recheck.contains(surface) == lost.recheck.contains(surface));
    fullscreen_laws::refocusing_stays_orderly(laid_out);
    staying::refocusing_keeps_notes(laid_out);
    staying::lists_keep_live(laid_out, after);
    staying::live_chains(lost, laid_out, after);
    assert(after.unmapped[index].contains(surface));
    assert(lists::listed(after.unmapped, surface));
    assert(!lists::listed(after.mapped, surface));
    assert(!after.toplevel(surface).has_buffer);
    lists::index_of_finds(after.mapped, surface);
    lists::index_of_is_only(after.unmapped, surface, index);
    space::place_of_finds(after.elements, surface);
}

/// What tells only clients, after what tells only clients, tells only clients.
proof fn telling_chains(first: State, second: State, third: State)
    requires
        second.keeps_places(first),
        third.keeps_places(second),
    ensures
        third.keeps_places(first),
{
    laws::keeping_chains(first, second, third);
}

/// The steps by which a window is asked for what the rules say tell only its client.
proof fn rule_steps_keep_places(
    state: State,
    window: SurfaceId,
    tiled: bool,
    pending: ToplevelState,
    decision: NewWindowRuleDecision,
)
    ensures
        state.decorated(window, tiled).keeps_places(state),
        state.with_pending(window, pending).keeps_places(state),
        state.rule_sized(window, decision).keeps_places(state),
        state.slot_asked(window).keeps_places(state),
{
}

/// Telling a window what it is asked for, and the size that this comes to, tells only its client.
proof fn sizing_steps_keep_places(state: State, window: SurfaceId, size: crate::geometry::Size)
    ensures
        state.with_size_synced(window, Some(size)).configured(window).keeps_places(state),
        state.with_size_synced(window, Some(size)).configured_if_changed(window).keeps_places(
            state,
        ),
{
    let pending = state.toplevel(window).pending;
    keeping::asking_keeps_places(state, window, pending, Some(size));
    let synced = state.with_size_synced(window, Some(size));
    keeping::asking_keeps_places(synced, window, pending, None);
    telling_chains(state, synced, synced.configured(window));
    telling_chains(state, synced, synced.configured_if_changed(window));
}

/// A window that is asked for what the rules say is moved as they say; the rest tells only its
/// client.
#[verifier::rlimit(40)]
proof fn rules_asking_keeps_places(state: State, window: SurfaceId, naming: Naming)
    ensures
        state.rules_asked(window, naming).keeps_places(
            state.moved_to_workspace(window, state.decision(naming).workspace_index as int).0,
        ),
{
    let decision = state.decision(naming);
    let tiled_free = !state.settled_floating(window, naming) && !state.exclusive(window);
    let moved = state.moved_to_workspace(window, decision.workspace_index as int).0;
    let tiled = moved.settings.general.no_csd && tiled_free;
    let decorated = moved.decorated(window, tiled);
    let pending = ToplevelState {
        size: decorated.toplevel(window).fixed_size(),
        ..decorated.toplevel(window).pending
    };
    rule_steps_keep_places(moved, window, tiled, pending, decision);
    rule_steps_keep_places(decorated, window, tiled, pending, decision);
    let hinted = if state.hints_count(window, naming) {
        decorated.with_pending(window, pending)
    } else {
        decorated
    };
    telling_chains(moved, decorated, hinted);
    rule_steps_keep_places(hinted, window, tiled, pending, decision);
    let sized = hinted.rule_sized(window, decision);
    telling_chains(moved, hinted, sized);
    let size = sized.new_fallback(window);
    sizing_steps_keep_places(sized, window, size);
    let told = sized.with_size_synced(window, Some(size)).configured_if_changed(window);
    telling_chains(moved, sized, told);
    let asked = state.rules_asked(window, naming);
    assert(asked == (if sized.toplevel(window).configured {
        told
    } else {
        sized
    }));
}

/// The first configure of a window moves it as the rules say; the rest tells only its client.
#[verifier::rlimit(40)]
proof fn first_configure_keeps_places(state: State, window: SurfaceId, naming: Naming)
    requires
        state.has_window(window),
    ensures
        state.first_configured(window, naming).keeps_places(
            state.moved_to_workspace(window, state.decision(naming).workspace_index as int).0,
        ),
{
    reveal(State::first_configured);
    let decision = state.decision(naming);
    let exclusive = state.exclusive(window);
    let floating = state.settled_floating(window, naming);
    let moved = state.moved_to_workspace(window, decision.workspace_index as int).0;
    let set = moved.with_floating(window, floating);
    assert(set.keeps_places(moved));
    let tiled = moved.settings.general.no_csd && !floating && !exclusive;
    let pending = set.toplevel(window).pending;
    rule_steps_keep_places(set, window, tiled, pending, decision);
    let decorated = set.decorated(window, tiled);
    telling_chains(moved, set, decorated);
    rule_steps_keep_places(decorated, window, tiled, pending, decision);
    let asked = decorated.rule_sized(window, decision);
    telling_chains(moved, decorated, asked);
    rule_steps_keep_places(asked, window, tiled, pending, decision);
    let placed = if decision.workspace_index == asked.current && !floating && !decision.fullscreen
        && !exclusive {
        asked.slot_asked(window)
    } else {
        asked
    };
    telling_chains(moved, asked, placed);
    let size = placed.new_fallback(window);
    sizing_steps_keep_places(placed, window, size);
    let told = placed.with_size_synced(window, Some(size)).configured(window);
    telling_chains(moved, placed, told);
    assert(state.first_configured(window, naming) == told);
}

/// The first configure of a window leaves the state orderly.
pub proof fn first_configure_stays_orderly(state: State, window: SurfaceId, naming: Naming)
    requires
        state.orderly(),
    ensures
        state.first_configured(window, naming).orderly(),
{
    if state.has_window(window) {
        let index = state.decision(naming).workspace_index as int;
        workspace_laws::moving_stays_orderly(state, window, index);
        first_configure_keeps_places(state, window, naming);
        laws::telling_stays_orderly(
            state.moved_to_workspace(window, index).0,
            state.first_configured(window, naming),
        );
    } else {
        reveal(State::first_configured);
    }
}

/// Placing a window as the rules say leaves the state orderly and keeps the window.
#[verifier::rlimit(40)]
pub proof fn rules_placing_stays_orderly(state: State, window: SurfaceId, naming: Naming)
    requires
        state.orderly(),
        state.decision(naming).workspace_index < WORKSPACE_COUNT,
    ensures
        state.rules_placed(window, naming).orderly(),
        state.rules_placed(window, naming).has_window(window),
        state.rules_placed(window, naming).keeps_lists(
            state.moved_to_workspace(window, state.decision(naming).workspace_index as int).0,
        ),
        ({
            let moved = state.moved_to_workspace(
                window,
                state.decision(naming).workspace_index as int,
            ).0;
            !moved.on_screen(window) ==> state.rules_placed(window, naming).elements
                == moved.elements
        }),
{
    let decision = state.decision(naming);
    let floating = state.settled_floating(window, naming);
    let index = decision.workspace_index as int;
    workspace_laws::moving_stays_orderly(state, window, index);
    rules_asking_keeps_places(state, window, naming);
    let moved = state.moved_to_workspace(window, index).0;
    let before = state.rules_asked(window, naming);
    laws::telling_stays_orderly(moved, before);
    let asked = before.with_floating(window, floating);
    assert(asked.keeps_places(before));
    laws::telling_stays_orderly(before, asked);
    lists::index_of_finds(moved.mapped, window);
    lists::index_of_finds(moved.unmapped, window);
    assert(lists::listed(moved.mapped, window) || lists::listed(moved.unmapped, window));
    if let Some((rect, bounds)) = asked.coming_slot(window) {
        keeping::asking_keeps_places(
            asked,
            window,
            ToplevelState {
                size: Some(rect.size),
                bounds: Some(bounds),
                ..asked.toplevel(window).pending
            },
            Some(rect.size),
        );
    }
    let told = if asked.workspace_holds(asked.current as int, window) && !floating
        && !decision.fullscreen && !state.exclusive(window) {
        asked.slot_told(window)
    } else {
        asked
    };
    assert(told.keeps_places(asked));
    laws::telling_stays_orderly(asked, told);
    laws::keeping_chains(moved, before, asked);
    laws::keeping_chains(moved, asked, told);
    if floating && told.on_screen(window) {
        keeping::shown_is_mapped(told, window);
        let rect = told.initial_rect(window);
        keeping::mapping_keeps(told, window, rect, !before.floats(window));
        let shown = told.mapped_to(window, rect, !before.floats(window));
        laws::orderly_by_lists(told, shown);
        let queued = State { recenter: shown.recenter.insert(window), ..shown };
        assert(queued.keeps_places(shown));
        laws::telling_stays_orderly(shown, queued);
        laws::keeping_chains(moved, told, shown);
        laws::keeping_chains(moved, shown, queued);
        assert(state.rules_placed(window, naming) == queued);
    } else {
        assert(state.rules_placed(window, naming) == told);
    }
}

/// Looking at the rules again leaves the state orderly.
pub proof fn recheck_stays_orderly(state: State, window: SurfaceId, naming: Naming)
    requires
        state.orderly(),
        state.decision(naming).workspace_index < WORKSPACE_COUNT,
    ensures
        state.rules_rechecked(window, naming).orderly(),
{
    reveal(State::rules_rechecked);
    let dropped = State { recheck: state.recheck.remove(window), ..state };
    assert(dropped.keeps_places(state));
    laws::telling_stays_orderly(state, dropped);
    if state.has_window(window) {
        let decision = state.decision(naming);
        rules_placing_stays_orderly(state, window, naming);
        let placed = state.rules_placed(window, naming);
        fullscreen_laws::enter_request_stays_orderly(placed, window, None);
        let full = if decision.fullscreen {
            placed.enter_requested(window, None)
        } else {
            placed
        };
        laws::layout_stays_orderly(full);
        let laid_out = full.laid_out().0;
        fullscreen_laws::focusing_stays_orderly(laid_out, Some(window));
        let focused = if decision.focus && decision.workspace_index == laid_out.current {
            laid_out.focus_set(Some(window))
        } else {
            laid_out
        };
        let settled = State { recheck: focused.recheck.remove(window), ..focused };
        assert(settled.keeps_places(focused));
        laws::telling_stays_orderly(focused, settled);
    }
}

/// Centring a window leaves the state orderly.
pub proof fn recentering_stays_orderly(state: State, surface: SurfaceId)
    requires
        state.orderly(),
    ensures
        state.recentered(surface).orderly(),
{
    let dropped = State { recenter: state.recenter.remove(surface), ..state };
    assert(dropped.keeps_places(state));
    laws::telling_stays_orderly(state, dropped);
    if state.on_screen(surface) {
        keeping::shown_is_mapped(state, surface);
        let loc = state.initial_rect(surface).loc;
        let rect = crate::geometry::Rectangle { loc, size: state.fallback_size(surface) };
        keeping::mapping_keeps(state, surface, rect, false);
        let shown = state.mapped_at(surface, loc, false);
        laws::orderly_by_lists(state, shown);
        let after = State { recenter: shown.recenter.remove(surface), ..shown };
        assert(after.keeps_places(shown));
        laws::telling_stays_orderly(shown, after);
    }
}

/// A commit in the tree of a window leaves the state orderly.
pub proof fn tree_commit_stays_orderly(
    state: State,
    root: SurfaceId,
    is_root: bool,
    naming: Naming,
)
    requires
        state.orderly(),
        forall|current: usize|
            current < WORKSPACE_COUNT ==> #[trigger] crate::state::rules::decision_by(
                state.settings.window_rules,
                naming,
                current,
            ).workspace_index < WORKSPACE_COUNT,
    ensures
        state.tree_committed(root, is_root, naming).orderly(),
{
    reveal(State::tree_committed);
    root_commit_stays_orderly(state, root, naming);
    let begun = if is_root {
        state.root_committed(root, naming)
    } else {
        state
    };
    fullscreen_laws::transition_stays_orderly(begun, root);
    let ready = begun.transition_applied(root);
    keeping::asking_keeps_places(ready, root, ready.toplevel(root).pending, None);
    laws::telling_stays_orderly(ready, ready.configured(root));
    let greeted = if is_root {
        ready.greeted(root)
    } else {
        ready
    };
    recheck_stays_orderly(greeted, root, naming);
    recentering_stays_orderly(greeted.rules_rechecked(root, naming), root);
}

/// A live window that is mapped stays so, without a mark, where live windows keep their lists.
proof fn staying_mapped(before: State, after: State, window: SurfaceId)
    requires
        after.keeps_live(before),
        before.lives_mapped(window),
    ensures
        after.lives_mapped(window),
{
    let i = choose|i: int|
        0 <= i < before.mapped.len() && (#[trigger] before.mapped[i]).contains(window);
    assert(after.mapped[i].contains(window));
}

/// A mapped window stays mapped when it is placed as the rules say.
proof fn rules_placing_keeps_mapped(state: State, window: SurfaceId, naming: Naming)
    requires
        state.orderly(),
        state.lives_mapped(window),
        state.decision(naming).workspace_index < WORKSPACE_COUNT,
    ensures
        state.rules_placed(window, naming).lives_mapped(window),
{
    let index = state.decision(naming).workspace_index as int;
    workspace_laws::moving_stays_orderly(state, window, index);
    rules_placing_stays_orderly(state, window, naming);
    let moved = state.moved_to_workspace(window, index).0;
    assert(moved.unmapped == state.unmapped) by {
        reveal(State::moved_to_workspace);
        lists::index_of_finds(state.unmapped, window);
        workspace_laws::moving_mapped_stays_orderly(state, window, index);
    }
    lists::index_of_finds(moved.mapped, window);
    lists::index_of_finds(moved.unmapped, window);
    assert(moved.toplevel(window).live);
    assert(moved.lives_mapped(window));
    let placed = state.rules_placed(window, naming);
    assert(placed.toplevel(window).live == moved.toplevel(window).live);
}

/// A mapped window stays mapped when the rules are looked at again.
proof fn recheck_keeps_mapped(state: State, window: SurfaceId, naming: Naming)
    requires
        state.orderly(),
        state.lives_mapped(window),
        state.decision(naming).workspace_index < WORKSPACE_COUNT,
    ensures
        state.rules_rechecked(window, naming).lives_mapped(window),
{
    reveal(State::rules_rechecked);
    let decision = state.decision(naming);
    rules_placing_stays_orderly(state, window, naming);
    rules_placing_keeps_mapped(state, window, naming);
    let placed = state.rules_placed(window, naming);
    fullscreen_laws::enter_request_stays_orderly(placed, window, None);
    let full = if decision.fullscreen {
        placed.enter_requested(window, None)
    } else {
        placed
    };
    staying::lists_keep_live(placed, full);
    staying_mapped(placed, full, window);
    laws::layout_stays_orderly(full);
    staying::layout_keeps_live(full);
    let laid_out = full.laid_out().0;
    staying_mapped(full, laid_out, window);
    fullscreen_laws::focusing_stays_orderly(laid_out, Some(window));
    let focused = laid_out.focus_set(Some(window));
    staying::lists_keep_live(laid_out, focused);
    staying_mapped(laid_out, focused, window);
}

/// A window that moves to a workspace that is not current is not on the screen then.
proof fn moving_away_leaves_screen(state: State, window: SurfaceId, index: int)
    requires
        state.orderly(),
        state.lives_mapped(window),
        state.in_place(window),
        0 <= index < WORKSPACE_COUNT,
        index != state.current,
    ensures
        !state.moved_to_workspace(window, index).0.on_screen(window),
{
    reveal(State::moved_to_workspace);
    reveal(State::owner_moved);
    lists::index_of_finds(state.unmapped, window);
    lists::index_of_finds(state.mapped, window);
    let source = lists::index_of(state.mapped, window).unwrap() as int;
    space::lifted_leaves(state.elements, window);
    let moved = state.moved_to_workspace(window, index).0;
    if source == state.current {
        space::place_of_finds(space::lifted(state.elements, window), window);
        assert(moved.elements == space::lifted(state.elements, window));
    } else {
        if state.mapped[state.current as int].contains(window) {
            lists::index_of_is_only(state.mapped, window, state.current as int);
        }
        assert(moved.elements == state.elements);
    }
}

/// A window that is on the screen only if the current workspace has it still is, after the rules are
/// looked at again.
proof fn recheck_keeps_in_place(state: State, window: SurfaceId, naming: Naming)
    requires
        state.orderly(),
        state.lives_mapped(window),
        state.in_place(window),
        state.decision(naming).workspace_index < WORKSPACE_COUNT,
    ensures
        state.rules_rechecked(window, naming).in_place(window),
{
    reveal(State::rules_rechecked);
    let decision = state.decision(naming);
    let index = decision.workspace_index as int;
    workspace_laws::moving_stays_orderly(state, window, index);
    rules_placing_stays_orderly(state, window, naming);
    rules_placing_keeps_mapped(state, window, naming);
    let moved = state.moved_to_workspace(window, index).0;
    let placed = state.rules_placed(window, naming);
    lists::index_of_finds(moved.mapped, window);
    assert(moved.mapped[index].contains(window));
    fullscreen_laws::enter_request_stays_orderly(placed, window, None);
    let full = if decision.fullscreen {
        placed.enter_requested(window, None)
    } else {
        placed
    };
    assert(full.mapped[index].contains(window));
    assert(full.toplevel(window).live == placed.toplevel(window).live);
    laws::layout_stays_orderly(full);
    staying::layout_keeps_live(full);
    let laid_out = full.laid_out().0;
    assert(laid_out.mapped[index].contains(window));
    fullscreen_laws::focusing_stays_orderly(laid_out, Some(window));
    if index != state.current {
        moving_away_leaves_screen(state, window, index);
        assert(full.elements == moved.elements);
        assert(!full.on_screen(window));
        assert(!full.workspace_holds(full.current as int, window)) by {
            if full.mapped[full.current as int].contains(window) {
                lists::index_of_is_only(full.mapped, window, full.current as int);
                lists::index_of_is_only(full.mapped, window, index);
            }
            assert(lists::listed(full.mapped, window));
            if full.unmapped[full.current as int].contains(window) {
                assert(lists::listed(full.unmapped, window));
            }
        }
        showing::layout_shows_current(full, window);
    }
}

/// A commit of its root surface with its first buffer leaves the window of a live client among the
/// mapped, on no list of unmapped windows, and without the mark, also where rules that waited move it
/// to another workspace. It is on the screen only if its workspace is current.
pub proof fn first_commit_maps(state: State, surface: SurfaceId, naming: Naming)
    requires
        state.orderly(),
        state.has_window(surface),
        state.unmapped_marks.contains(surface),
        state.toplevel(surface).has_buffer,
        state.toplevel(surface).live,
        forall|current: usize|
            current < WORKSPACE_COUNT ==> #[trigger] crate::state::rules::decision_by(
                state.settings.window_rules,
                naming,
                current,
            ).workspace_index < WORKSPACE_COUNT,
    ensures
        ({
            let after = state.tree_committed(surface, true, naming);
            &&& after.orderly()
            &&& lists::listed(after.mapped, surface)
            &&& !lists::listed(after.unmapped, surface)
            &&& !after.unmapped_marks.contains(surface)
            &&& after.on_screen(surface) ==> after.workspace_of(surface) == Some(after.current)
        }),
{
    tree_commit_stays_orderly(state, surface, true, naming);
    first_buffer_maps(state, surface, naming);
    root_commit_stays_orderly(state, surface, naming);
    reveal(State::tree_committed);
    let begun = state.root_committed(surface, naming);
    lists::index_of_finds(begun.mapped, surface);
    assert(lists::listed(begun.mapped, surface));
    assert(begun.lives_mapped(surface));
    fullscreen_laws::transition_stays_orderly(begun, surface);
    staying::transition_keeps_live(begun, surface);
    let ready = begun.transition_applied(surface);
    staying_mapped(begun, ready, surface);
    keeping::asking_keeps_places(ready, surface, ready.toplevel(surface).pending, None);
    laws::telling_stays_orderly(ready, ready.configured(surface));
    let greeted = ready.greeted(surface);
    staying::lists_keep_live(ready, greeted);
    staying_mapped(ready, greeted, surface);
    recheck_stays_orderly(greeted, surface, naming);
    recheck_keeps_mapped(greeted, surface, naming);
    let checked = greeted.rules_rechecked(surface, naming);
    let loc = checked.initial_rect(surface).loc;
    let rect = crate::geometry::Rectangle { loc, size: checked.fallback_size(surface) };
    if checked.on_screen(surface) {
        keeping::shown_is_mapped(checked, surface);
        keeping::mapping_keeps(checked, surface, rect, false);
    }
    let after = state.tree_committed(surface, true, naming);
    assert(after.lives_mapped(surface));
    assert(begun.in_place(surface));
    assert(ready.in_place(surface)) by {
        if begun.on_screen(surface) {
            assert(begun.mapped[begun.current as int].contains(surface));
            assert(ready.mapped[begun.current as int].contains(surface));
        } else {
            reveal(State::transition_applied);
        }
    }
    assert(greeted.in_place(surface));
    recheck_keeps_in_place(greeted, surface, naming);
    assert(after.in_place(surface));
    if after.on_screen(surface) {
        lists::index_of_is_only(after.mapped, surface, after.current as int);
    }
}

/// A commit with which its root surface loses its buffer takes the window of a live client off the
/// screen and back to the unmapped of its workspace and to no other list; it carries the mark, and
/// waits for its first configure. Where the rules have to wait for its names, they are looked at again.
pub proof fn lost_commit_unmaps(state: State, surface: SurfaceId, naming: Naming)
    requires
        state.orderly(),
        state.has_window(surface),
        lists::listed(state.mapped, surface),
        !state.toplevel(surface).has_buffer,
        state.toplevel(surface).live,
    ensures
        lists::index_of(state.mapped, surface) is Some,
        ({
            let index = lists::index_of(state.mapped, surface).unwrap();
            let after = state.tree_committed(surface, true, naming);
            &&& after.orderly()
            &&& !after.on_screen(surface)
            &&& !lists::listed(after.mapped, surface)
            &&& index < after.unmapped.len()
            &&& after.unmapped[index as int].contains(surface)
            &&& after.workspace_of(surface) == Some(index)
            &&& after.unmapped_marks.contains(surface)
            &&& after.initial_configure.contains(surface)
            &&& state.defers_rules(naming) ==> after.recheck.contains(surface)
        }),
{
    lost_buffer_unmaps(state, surface, naming);
    reveal(State::tree_committed);
    reveal(State::transition_applied);
    reveal(State::rules_rechecked);
    let begun = state.root_committed(surface, naming);
    assert(lists::listed(begun.unmapped, surface));
    let after = state.tree_committed(surface, true, naming);
    assert(after.keeps_places(begun));
    laws::telling_stays_orderly(begun, after);
}

/// What follows from the commit of a layer surface leaves the state orderly.
pub proof fn layer_commit_stays_orderly(state: State, action: LayerAction)
    requires
        state.orderly(),
    ensures
        state.layer_followed(action).orderly(),
{
    reveal(State::layer_followed);
    laws::layout_stays_orderly(state);
    let laid_out = if action.relayout {
        state.laid_out().0
    } else {
        state
    };
    fullscreen_laws::focusing_stays_orderly(laid_out, action.focus);
}

/// Following a window to its workspace leaves the state orderly.
pub proof fn following_stays_orderly(state: State, window: SurfaceId)
    requires
        state.orderly(),
    ensures
        state.workspace_followed(window).0.orderly(),
        state.has_window(window) && state.toplevel(window).live ==> state.workspace_followed(
            window,
        ).0.has_window(window),
{
    if state.on_screen(window) {
        keeping::shown_is_mapped(state, window);
    }
    if let Some(target) = state.holder_from(window, 0) {
        workspace_laws::switching_stays_orderly(state, target as int);
        let after = state.workspace_switched(target as int).0;
        lists::index_of_finds(state.mapped, window);
        lists::index_of_finds(state.unmapped, window);
        lists::index_of_finds(after.mapped, window);
        lists::index_of_finds(after.unmapped, window);
        if state.toplevel(window).live && lists::listed(state.mapped, window) {
            let index = lists::index_of(state.mapped, window).unwrap() as int;
            assert(after.mapped[index].contains(window));
            assert(lists::listed(after.mapped, window));
        } else if state.toplevel(window).live && lists::listed(state.unmapped, window) {
            let index = lists::index_of(state.unmapped, window).unwrap() as int;
            assert(after.unmapped[index].contains(window));
            assert(lists::listed(after.unmapped, window));
        }
    }
}

/// A request of another client to make a live window fullscreen leaves the state orderly.
pub proof fn foreign_fullscreen_stays_orderly(state: State, surface: SurfaceId)
    requires
        state.orderly(),
        state.toplevel(surface).live,
    ensures
        state.foreign_fullscreen(surface).orderly(),
{
    reveal(State::foreign_fullscreen);
    if state.has_window(surface) {
        let settled = state.settled(surface);
        assert(settled.keeps_places(state));
        laws::telling_stays_orderly(state, settled);
        awaiting_stays_orderly(settled, surface);
        let clear = State {
            pending_fullscreen: settled.pending_fullscreen.remove(surface),
            ..settled
        };
        assert(clear.keeps_places(settled));
        laws::telling_stays_orderly(settled, clear);
        following_stays_orderly(clear, surface);
        let there = clear.workspace_followed(surface).0;
        fullscreen_laws::entering_stays_orderly(there, surface, None);
        let entered = there.fullscreen_entered(surface, None);
        fullscreen_laws::raising_stays_orderly(entered, surface);
        laws::layout_stays_orderly(entered.raised(surface));
    }
}

/// A request of another client to make a window active leaves the state orderly.
pub proof fn foreign_activation_stays_orderly(state: State, surface: SurfaceId)
    requires
        state.orderly(),
    ensures
        state.foreign_activated(surface).orderly(),
{
    reveal(State::foreign_activated);
    following_stays_orderly(state, surface);
    let there = state.workspace_followed(surface).0;
    fullscreen_laws::raising_stays_orderly(there, surface);
    fullscreen_laws::focusing_stays_orderly(there.raised_in_layer(surface), Some(surface));
}

} // verus!
