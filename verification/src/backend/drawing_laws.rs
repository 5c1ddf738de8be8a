//! Laws of frames: what lies in front is drawn in front, and windows are drawn where they were put.

use crate::backend::elements;
use crate::backend::elements::{Assigned, FramePart, Piece, PieceId, WindowPath};
use crate::geometry::{Point, Rectangle};
use crate::state::lists::SurfaceId;
use crate::state::raven::State;
use vstd::prelude::*;

verus! {

proof fn plain_parts(pieces: Seq<Piece>)
    ensures
        elements::parts_of(pieces, seq![]).len() == pieces.len(),
        forall|i: int|
            0 <= i < pieces.len() ==> #[trigger] elements::parts_of(pieces, seq![])[i]
                == FramePart::Plain(pieces[i]),
    decreases pieces.len(),
{
    if pieces.len() > 0 {
        plain_parts(pieces.drop_last());
        assert(elements::owner_of(seq![], pieces.last().id) is None);
    }
}

/// A frame without windows of their own place is its pieces in their order, the pointer in front of
/// them where it is on the output, and the backdrop behind them.
pub proof fn frame_keeps_the_order(cursor: bool, pieces: Seq<Piece>, at: int)
    requires
        0 <= at < pieces.len(),
    ensures
        ({
            let frame = elements::frame_of(cursor, pieces, seq![]);
            &&& cursor ==> frame[0] == FramePart::Cursor && frame[at + 1] == FramePart::Plain(
                pieces[at],
            )
            &&& !cursor ==> frame[at] == FramePart::Plain(pieces[at])
            &&& frame.last() == FramePart::Backdrop
            &&& frame.len() == pieces.len() + (if cursor {
                2int
            } else {
                1int
            })
        }),
{
    plain_parts(pieces);
}

/// Whatever is drawn, the pointer is in front of it where it is on the output, and the backdrop behind.
pub proof fn pointer_is_in_front(cursor: bool, pieces: Seq<Piece>, assignments: Seq<Assigned>)
    ensures
        ({
            let frame = elements::frame_of(cursor, pieces, assignments);
            &&& frame.len() > 0
            &&& frame.last() == FramePart::Backdrop
            &&& cursor ==> frame[0] == FramePart::Cursor
        }),
{
}

/// A window is drawn in the rectangle that it was given; what its client drew begins as far to the left
/// and above as the window's geometry lies within its surface.
pub proof fn window_is_drawn_where_it_is(
    state: State,
    window: SurfaceId,
    origin: Point,
    surface_ids: Seq<PieceId>,
)
    requires
        state.assigned.contains_key(window),
        surface_ids.len() > 0,
    ensures
        ({
            let drawn = state.assignment(window, origin, surface_ids);
            let rect = state.assigned[window];
            &&& drawn is Some
            &&& drawn.unwrap().window == window
            &&& drawn.unwrap().surface_ids == surface_ids
            &&& drawn.unwrap().assigned_logical == rect
            &&& drawn.unwrap().is_fullscreen <==> state.owns_workspace(window)
            &&& i32::MIN <= rect.loc.x - origin.x <= i32::MAX
                ==> drawn.unwrap().raw_root_logical.loc.x == rect.loc.x - origin.x
            &&& i32::MIN <= rect.loc.y - origin.y <= i32::MAX
                ==> drawn.unwrap().raw_root_logical.loc.y == rect.loc.y - origin.y
            &&& state.toplevel(window).committed_size is Some ==> Some(
                drawn.unwrap().reported_logical_size,
            ) == state.toplevel(window).committed_size
            &&& state.toplevel(window).surface_size is Some ==> Some(
                drawn.unwrap().raw_root_logical.size,
            ) == state.toplevel(window).surface_size
        }),
{
}

/// A window is stretched only while it is fullscreen, and then if and only if its client drew another
/// place or size than it was given, or reports another size.
pub proof fn only_fullscreen_is_stretched(assignment: Assigned)
    ensures
        !assignment.is_fullscreen ==> elements::path_of(assignment) == WindowPath::SurfaceTree,
        assignment.assigned_logical == assignment.raw_root_logical
            && assignment.assigned_logical.size == assignment.reported_logical_size
            ==> elements::path_of(assignment) == WindowPath::SurfaceTree,
        assignment.is_fullscreen && assignment.assigned_logical != assignment.raw_root_logical
            ==> elements::path_of(assignment) == WindowPath::Stretched,
        assignment.is_fullscreen && assignment.assigned_logical.size
            != assignment.reported_logical_size ==> elements::path_of(assignment)
            == WindowPath::Stretched,
{
}

/// A rectangle that is carried over from one to another keeps its size and lies as far from the
/// corner.
pub proof fn translation_keeps_distance(geometry: Rectangle, source: Rectangle, target: Rectangle)
    ensures
        ({
            let there = elements::translated(geometry, source, target);
            &&& there.size == geometry.size
            &&& i32::MIN <= geometry.loc.x - source.loc.x <= i32::MAX && i32::MIN <= target.loc.x
                + (geometry.loc.x - source.loc.x) <= i32::MAX ==> there.loc.x - target.loc.x
                == geometry.loc.x - source.loc.x
            &&& i32::MIN <= geometry.loc.y - source.loc.y <= i32::MAX && i32::MIN <= target.loc.y
                + (geometry.loc.y - source.loc.y) <= i32::MAX ==> there.loc.y - target.loc.y
                == geometry.loc.y - source.loc.y
        }),
{
}

} // verus!
