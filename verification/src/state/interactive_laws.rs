//! Laws of windows that are being moved or resized with the pointer.

use crate::geometry::{Point, Rectangle, Size};
use crate::state::interactive;
use crate::state::keeping;
use crate::state::laws;
use crate::state::lists;
use crate::state::lists::SurfaceId;
use crate::state::raven::State;
use crate::state::settling;
use crate::state::space;
use crate::state::toplevel::ToplevelState;
use vstd::prelude::*;

verus! {

/// However often a window is dragged on within a frame, the last place or size counts.
pub proof fn last_drag_counts<T>(list: Seq<(SurfaceId, T)>, window: SurfaceId, first: T, last: T)
    ensures
        interactive::queued(interactive::queued(list, window, first), window, last)
            == interactive::queued(list, window, last),
    decreases list.len(),
{
    let once = interactive::queued(list, window, first);
    if list.len() == 0 {
        assert(once.skip(1) =~= seq![]);
        assert(seq![(window, last)] + once.skip(1) =~= seq![(window, last)]);
    } else if list[0].0 == window {
        assert(once.skip(1) =~= list.skip(1));
        assert(once[0] == (window, first));
    } else {
        let rest = interactive::queued(list.skip(1), window, first);
        assert(once[0] == list[0]);
        assert(once.skip(1) =~= rest);
        last_drag_counts(list.skip(1), window, first, last);
    }
}

proof fn moving_stays_orderly(state: State, moves: Seq<(SurfaceId, Point)>)
    requires
        state.orderly(),
        forall|i: int|
            0 <= i < moves.len() ==> lists::listed(state.mapped, (#[trigger] moves[i]).0),
    ensures
        state.moves_done(moves).orderly_like(state),
    decreases moves.len(),
{
    if moves.len() > 0 {
        let before = state.moves_done(moves.drop_last());
        let (window, location) = moves.last();
        assert forall|i: int| 0 <= i < moves.drop_last().len() implies lists::listed(
            state.mapped,
            (#[trigger] moves.drop_last()[i]).0,
        ) by {
            assert(moves[i] == moves.drop_last()[i]);
        }
        moving_stays_orderly(state, moves.drop_last());
        assert(moves[moves.len() - 1] == moves.last());
        let after = state.moves_done(moves);
        let rect = Rectangle { loc: location, size: before.fallback_size(window) };
        keeping::mapping_keeps(before, window, rect, false);
        laws::keeping_chains(state, before, after);
        laws::orderly_by_lists(before, after);
    }
}

proof fn resizing_keeps_places(state: State, resizes: Seq<(SurfaceId, Size)>)
    ensures
        state.resizes_done(resizes).keeps_places(state),
    decreases resizes.len(),
{
    if resizes.len() > 0 {
        let before = state.resizes_done(resizes.drop_last());
        let (window, size) = resizes.last();
        resizing_keeps_places(state, resizes.drop_last());
        let pending = ToplevelState {
            resizing: true,
            size: Some(size),
            ..before.toplevel(window).pending
        };
        let asked = before.with_pending(window, pending);
        let synced = asked.with_size_synced(window, Some(size));
        keeping::asking_keeps_places(before, window, pending, Some(size));
        keeping::asking_keeps_places(asked, window, pending, Some(size));
        keeping::asking_keeps_places(synced, window, pending, Some(size));
        laws::keeping_chains(state, before, asked);
        laws::keeping_chains(state, asked, synced);
        laws::keeping_chains(state, synced, state.resizes_done(resizes));
    }
}

/// Carrying out what waits for a frame keeps the windows in order, as long as the windows that are
/// being moved are still mapped.
pub proof fn dragging_stays_orderly(state: State)
    requires
        state.orderly(),
        forall|i: int|
            0 <= i < state.moves.len() ==> lists::listed(state.mapped, (#[trigger] state.moves[i]).0),
    ensures
        state.frame_flushed().orderly_like(state),
{
    let still = State { moves: seq![], ..state };
    assert(still.keeps_places(state));
    laws::telling_stays_orderly(state, still);
    moving_stays_orderly(still, state.moves);
    let moved = still.moves_done(state.moves);
    let rest = State { resizes: seq![], ..moved };
    assert(rest.keeps_places(moved));
    laws::telling_stays_orderly(moved, rest);
    resizing_keeps_places(rest, moved.resizes);
    let after = rest.resizes_done(moved.resizes);
    laws::telling_stays_orderly(rest, after);
    laws::keeping_chains(state, still, moved);
    laws::keeping_chains(state, moved, rest);
    laws::keeping_chains(state, rest, after);
}

proof fn moving_stays_single(state: State, moves: Seq<(SurfaceId, Point)>)
    requires
        space::one_each(state.elements),
    ensures
        space::one_each(state.moves_done(moves).elements),
    decreases moves.len(),
{
    if moves.len() > 0 {
        moving_stays_single(state, moves.drop_last());
        let before = state.moves_done(moves.drop_last());
        let rect = Rectangle {
            loc: moves.last().1,
            size: before.fallback_size(moves.last().0),
        };
        settling::mapping_settles(before, moves.last().0, rect);
    }
}

/// A window that is dragged about stands where it was dragged to last, and is given that place.
pub proof fn dragged_window_lands(state: State, moves: Seq<(SurfaceId, Point)>, at: int)
    requires
        space::one_each(state.elements),
        0 <= at < moves.len(),
        forall|i: int| at < i < moves.len() ==> (#[trigger] moves[i]).0 != moves[at].0,
    ensures
        state.moves_done(moves).stands(moves[at].0, moves[at].1),
        state.moves_done(moves).assigned.contains_key(moves[at].0),
        state.moves_done(moves).assigned[moves[at].0].loc == moves[at].1,
    decreases moves.len(),
{
    let rest = moves.drop_last();
    let last = moves.last();
    moving_stays_single(state, rest);
    let before = state.moves_done(rest);
    let rect = Rectangle { loc: last.1, size: before.fallback_size(last.0) };
    assert(moves[moves.len() - 1] == last);
    if at == moves.len() - 1 {
        settling::mapping_settles(before, last.0, rect);
    } else {
        assert(rest[at] == moves[at]);
        assert forall|i: int| at < i < rest.len() implies (#[trigger] rest[i]).0 != rest[at].0 by {
            assert(rest[i] == moves[i]);
        }
        dragged_window_lands(state, rest, at);
        settling::mapping_leaves_standing(before, last.0, rect, moves[at].0, moves[at].1);
    }
}

proof fn edge_asks(state: State, window: SurfaceId, size: Size)
    ensures
        state.resize_done(window, size).toplevel(window).pending.size == Some(size),
        state.resize_done(window, size).toplevel(window).pending.resizing,
{
}

proof fn edge_leaves(state: State, window: SurfaceId, size: Size, other: SurfaceId)
    requires
        other != window,
    ensures
        state.resize_done(window, size).toplevel(other) == state.toplevel(other),
{
}

/// A window whose edges are dragged is asked for the size that they were dragged to last, and is told
/// that it is being resized.
pub proof fn dragged_edges_ask(state: State, resizes: Seq<(SurfaceId, Size)>, at: int)
    requires
        0 <= at < resizes.len(),
        forall|i: int| at < i < resizes.len() ==> (#[trigger] resizes[i]).0 != resizes[at].0,
    ensures
        state.resizes_done(resizes).toplevel(resizes[at].0).pending.size == Some(resizes[at].1),
        state.resizes_done(resizes).toplevel(resizes[at].0).pending.resizing,
    decreases resizes.len(),
{
    let rest = resizes.drop_last();
    let last = resizes.last();
    assert(resizes[resizes.len() - 1] == last);
    let before = state.resizes_done(rest);
    assert(state.resizes_done(resizes) == before.resize_done(last.0, last.1));
    if at < resizes.len() - 1 {
        assert(rest[at] == resizes[at]);
        assert forall|i: int| at < i < rest.len() implies (#[trigger] rest[i]).0 != rest[at].0 by {
            assert(rest[i] == resizes[i]);
        }
        dragged_edges_ask(state, rest, at);
        edge_leaves(before, last.0, last.1, resizes[at].0);
    } else {
        edge_asks(before, last.0, last.1);
    }
}

/// Dragging edges leaves every window where it stands.
pub proof fn resizing_keeps_elements(state: State, resizes: Seq<(SurfaceId, Size)>)
    ensures
        state.resizes_done(resizes).elements == state.elements,
    decreases resizes.len(),
{
    if resizes.len() > 0 {
        resizing_keeps_elements(state, resizes.drop_last());
    }
}

/// What was asked for by dragging within a frame is done with it, and nothing of it is left for the
/// next.
pub proof fn frame_leaves_no_drag(state: State)
    ensures
        state.frame_flushed().moves.len() == 0,
        state.frame_flushed().resizes.len() == 0,
{
    let still = State { moves: seq![], ..state };
    moving_keeps_queues(still, state.moves);
    let moved = still.moves_done(state.moves);
    let rest = State { resizes: seq![], ..moved };
    resizing_keeps_queues(rest, moved.resizes);
}

proof fn moving_keeps_queues(state: State, moves: Seq<(SurfaceId, Point)>)
    ensures
        state.moves_done(moves).moves == state.moves,
        state.moves_done(moves).resizes == state.resizes,
    decreases moves.len(),
{
    if moves.len() > 0 {
        moving_keeps_queues(state, moves.drop_last());
    }
}

proof fn resizing_keeps_queues(state: State, resizes: Seq<(SurfaceId, Size)>)
    ensures
        state.resizes_done(resizes).moves == state.moves,
        state.resizes_done(resizes).resizes == state.resizes,
    decreases resizes.len(),
{
    if resizes.len() > 0 {
        resizing_keeps_queues(state, resizes.drop_last());
    }
}

} // verus!
