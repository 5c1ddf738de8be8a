//! Windows that are being moved or resized with the pointer: what is asked for is gathered and
//! carried out once for each frame.

use crate::geometry::{Point, Size};
use crate::state::lists::SurfaceId;
use crate::state::raven::{Raven, State};
use crate::state::toplevel::ToplevelState;
use vstd::prelude::*;

verus! {

broadcast use vstd::std_specs::hash::group_hash_axioms;

/// `list` with `value` for `window`: in place of what is there for it, or else at the end.
pub open spec fn queued<T>(list: Seq<(SurfaceId, T)>, window: SurfaceId, value: T) -> Seq<
    (SurfaceId, T),
>
    decreases list.len(),
{
    if list.len() == 0 {
        seq![(window, value)]
    } else if list[0].0 == window {
        seq![(window, value)] + list.skip(1)
    } else {
        seq![list[0]] + queued(list.skip(1), window, value)
    }
}

/// `list` without what is there for `window`.
pub open spec fn unqueued<T>(list: Seq<(SurfaceId, T)>, window: SurfaceId) -> Seq<(SurfaceId, T)>
    decreases list.len(),
{
    if list.len() == 0 {
        list
    } else if list.last().0 == window {
        unqueued(list.drop_last(), window)
    } else {
        unqueued(list.drop_last(), window).push(list.last())
    }
}

fn queue<T: Copy>(list: &mut Vec<(SurfaceId, T)>, window: SurfaceId, value: T)
    ensures
        final(list)@ == queued(old(list)@, window, value),
{
    let ghost all = list@;
    let mut index: usize = 0;
    assert(all.skip(0) =~= all);
    assert(all.take(0) + queued(all.skip(0), window, value) =~= queued(all, window, value));
    while index < list.len()
        invariant
            index <= list.len(),
            list@ == all,
            all == old(list)@,
            queued(all, window, value) == all.take(index as int) + queued(
                all.skip(index as int),
                window,
                value,
            ),
        decreases list.len() - index,
    {
        let ghost rest = all.skip(index as int);
        assert(rest.skip(1) =~= all.skip(index + 1));
        assert(rest[0] == all[index as int]);
        if list[index].0 == window {
            list.set(index, (window, value));
            assert(list@ =~= all.take(index as int) + (seq![(window, value)] + rest.skip(1)));
            return;
        }
        assert(all.take(index + 1) =~= all.take(index as int) + seq![all[index as int]]);
        assert(all.take(index as int) + (seq![rest[0]] + queued(rest.skip(1), window, value))
            =~= all.take(index + 1) + queued(all.skip(index + 1), window, value));
        index = index + 1;
    }
    list.push((window, value));
    assert(all.take(all.len() as int) =~= all);
    assert(list@ =~= all + seq![(window, value)]);
}

fn unqueue<T: Copy>(list: &mut Vec<(SurfaceId, T)>, window: SurfaceId)
    ensures
        final(list)@ == unqueued(old(list)@, window),
{
    let mut kept: Vec<(SurfaceId, T)> = Vec::new();
    let ghost all = list@;
    let mut index: usize = 0;
    assert(all.take(0) =~= seq![]);
    while index < list.len()
        invariant
            index <= list.len(),
            all == list@,
            kept@ == unqueued(all.take(index as int), window),
        decreases list.len() - index,
    {
        assert(all.take(index + 1).drop_last() =~= all.take(index as int));
        if list[index].0 != window {
            kept.push(list[index]);
        }
        index = index + 1;
    }
    assert(all.take(all.len() as int) =~= all);
    *list = kept;
}

impl State {
    /// The state with these windows put where they were moved to.
    pub open spec fn moves_done(self, moves: Seq<(SurfaceId, Point)>) -> State
        decreases moves.len(),
    {
        if moves.len() == 0 {
            self
        } else {
            self.moves_done(moves.drop_last()).mapped_at(moves.last().0, moves.last().1, false)
        }
    }

    /// The state with a window asked for the size that it is dragged to.
    pub open spec fn resize_done(self, window: SurfaceId, size: Size) -> State {
        self.with_pending(
            window,
            ToplevelState {
                resizing: true,
                size: Some(size),
                ..self.toplevel(window).pending
            },
        ).with_size_synced(window, Some(size)).configured_if_changed(window)
    }

    /// The state with these windows asked for the sizes that they are dragged to.
    pub open spec fn resizes_done(self, resizes: Seq<(SurfaceId, Size)>) -> State
        decreases resizes.len(),
    {
        if resizes.len() == 0 {
            self
        } else {
            self.resizes_done(resizes.drop_last()).resize_done(
                resizes.last().0,
                resizes.last().1,
            )
        }
    }

    /// The state with all that waits for the frame carried out: the moves first.
    pub open spec fn frame_flushed(self) -> State {
        State { moves: seq![], ..self }.moves_done(self.moves).resizes_waiting_done()
    }

    /// The state with the resizes that wait for the frame carried out.
    pub open spec fn resizes_waiting_done(self) -> State {
        State { resizes: seq![], ..self }.resizes_done(self.resizes)
    }
}

impl Raven {
    /// Asks for a window to be moved with the next frame.
    pub fn queue_interactive_move(&mut self, window: SurfaceId, location: Point)
        ensures
            final(self)@ == (State {
                moves: queued(old(self)@.moves, window, location),
                ..old(self)@
            }),
    {
        queue(&mut self.pending_interactive_moves, window, location);
    }

    /// Takes back that a window is to be moved.
    pub fn clear_pending_interactive_move(&mut self, window: SurfaceId)
        ensures
            final(self)@ == (State { moves: unqueued(old(self)@.moves, window), ..old(self)@ }),
    {
        unqueue(&mut self.pending_interactive_moves, window);
    }

    /// Asks for a window to be resized with the next frame.
    pub fn queue_interactive_resize(&mut self, window: SurfaceId, size: Size)
        ensures
            final(self)@ == (State {
                resizes: queued(old(self)@.resizes, window, size),
                ..old(self)@
            }),
    {
        queue(&mut self.pending_interactive_resizes, window, size);
    }

    /// Takes back that a window is to be resized.
    pub fn clear_pending_interactive_resize(&mut self, window: SurfaceId)
        ensures
            final(self)@ == (State {
                resizes: unqueued(old(self)@.resizes, window),
                ..old(self)@
            }),
    {
        unqueue(&mut self.pending_interactive_resizes, window);
    }

    /// Carries out what waits for the frame: the moves, then the resizes.
    pub fn flush_interactive_frame_updates(&mut self)
        ensures
            final(self)@ == old(self)@.frame_flushed(),
    {
        let mut moves: Vec<(SurfaceId, Point)> = Vec::new();
        std::mem::swap(&mut moves, &mut self.pending_interactive_moves);
        let ghost before = self@;
        let mut index: usize = 0;
        assert(moves@.take(0) =~= seq![]);
        while index < moves.len()
            invariant
                index <= moves.len(),
                self@ == before.moves_done(moves@.take(index as int)),
            decreases moves.len() - index,
        {
            assert(moves@.take(index + 1).drop_last() =~= moves@.take(index as int));
            let (window, location) = moves[index];
            self.map_window_to_location(window, location, false);
            index = index + 1;
        }
        assert(moves@.take(moves@.len() as int) =~= moves@);
        let mut resizes: Vec<(SurfaceId, Size)> = Vec::new();
        std::mem::swap(&mut resizes, &mut self.pending_interactive_resizes);
        let ghost moved = self@;
        let mut at: usize = 0;
        assert(resizes@.take(0) =~= seq![]);
        while at < resizes.len()
            invariant
                at <= resizes.len(),
                self@ == moved.resizes_done(resizes@.take(at as int)),
            decreases resizes.len() - at,
        {
            assert(resizes@.take(at + 1).drop_last() =~= resizes@.take(at as int));
            let (window, size) = resizes[at];
            let pending = self.toplevel(window).pending;
            self.set_pending_state(
                window,
                ToplevelState { resizing: true, size: Some(size), ..pending },
            );
            let _ = self.sync_reported_size_from_pending_state(window, Some(size));
            let _ = self.send_pending_configure(window);
            at = at + 1;
        }
        assert(resizes@.take(resizes@.len() as int) =~= resizes@);
    }
}

} // verus!
