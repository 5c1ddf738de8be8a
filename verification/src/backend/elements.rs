//! What a frame is made of, from the front to the back.

use crate::backend::redraw::{RedrawState, Screen, TimerId};
use crate::backend::scanout;
use crate::backend::scanout::{rejection_for_frame, OutputSight, RejectionCounters, ScanoutRejection};
use crate::geometry::{Point, Rectangle, Size};
use crate::render_helpers::solid_color::{Color, Extent, SolidColorBuffer};
use crate::state::lists::SurfaceId;
use crate::state::raven::{Raven, State};
use crate::state::space::output_geometry;
use crate::state::toplevel::{OutputId, WindowFullscreenMode};
use vstd::prelude::*;

verus! {

/// The number that a piece of a frame is known by: that of its surface.
pub type PieceId = u64;

/// What a piece of a frame shows.
#[derive(Clone, Copy, Debug, PartialEq, Eq, Structural)]
pub enum PieceKind {
    Window,
    Layer,
    Other,
}

/// A piece of a frame.
#[derive(Clone, Copy, Debug, PartialEq, Eq, Structural)]
pub struct Piece {
    pub id: PieceId,
    pub kind: PieceKind,
}

/// The pieces of windows.
pub open spec fn window_pieces(pieces: Seq<Piece>) -> Seq<Piece>
    decreases pieces.len(),
{
    if pieces.len() == 0 {
        pieces
    } else if pieces.last().kind == PieceKind::Window {
        window_pieces(pieces.drop_last()).push(pieces.last())
    } else {
        window_pieces(pieces.drop_last())
    }
}

/// The pieces of layers behind the foremost window.
pub open spec fn lower_pieces(pieces: Seq<Piece>) -> Seq<Piece>
    decreases pieces.len(),
{
    if pieces.len() == 0 {
        pieces
    } else if pieces.last().kind == PieceKind::Layer && window_pieces(pieces.drop_last()).len() > 0 {
        lower_pieces(pieces.drop_last()).push(pieces.last())
    } else {
        lower_pieces(pieces.drop_last())
    }
}

/// The pieces of an output with a fullscreen window: the overlay, the windows, the top layer, and
/// what lies below.
pub open spec fn fullscreen_order(
    overlay: Seq<Piece>,
    pieces: Seq<Piece>,
    top: Seq<Piece>,
) -> Seq<Piece> {
    overlay + window_pieces(pieces) + top + lower_pieces(pieces)
}

/// The pieces of an output with a fullscreen window, in their order.
pub fn reorder_for_fullscreen(overlay: &Vec<Piece>, pieces: &Vec<Piece>, top: &Vec<Piece>) -> (ordered:
    Vec<Piece>)
    ensures
        ordered@ == fullscreen_order(overlay@, pieces@, top@),
{
    let mut windows: Vec<Piece> = Vec::new();
    let mut lower: Vec<Piece> = Vec::new();
    let mut index: usize = 0;
    assert(pieces@.take(0) =~= seq![]);
    while index < pieces.len()
        invariant
            index <= pieces.len(),
            windows@ == window_pieces(pieces@.take(index as int)),
            lower@ == lower_pieces(pieces@.take(index as int)),
        decreases pieces.len() - index,
    {
        assert(pieces@.take(index + 1).drop_last() =~= pieces@.take(index as int));
        let piece = pieces[index];
        match piece.kind {
            PieceKind::Window => windows.push(piece),
            PieceKind::Layer => if windows.len() > 0 {
                lower.push(piece);
            },
            PieceKind::Other => {},
        }
        index = index + 1;
    }
    assert(pieces@.take(pieces@.len() as int) =~= pieces@);
    let mut ordered: Vec<Piece> = Vec::new();
    ordered.extend_from_slice(overlay.as_slice());
    ordered.extend_from_slice(windows.as_slice());
    ordered.extend_from_slice(top.as_slice());
    ordered.extend_from_slice(lower.as_slice());
    assert(ordered@ =~= fullscreen_order(overlay@, pieces@, top@));
    ordered
}

/// On an output with a fullscreen window, the overlay is in front of all windows, and all windows
/// are in front of the top layer.
pub proof fn fullscreen_covers_top_layer(overlay: Seq<Piece>, pieces: Seq<Piece>, top: Seq<Piece>)
    ensures
        forall|i: int|
            0 <= i < overlay.len() ==> #[trigger] fullscreen_order(overlay, pieces, top)[i]
                == overlay[i],
        forall|i: int|
            0 <= i < window_pieces(pieces).len() ==> fullscreen_order(overlay, pieces, top)[overlay.len()
                + i] == #[trigger] window_pieces(pieces)[i],
        forall|i: int|
            0 <= i < top.len() ==> fullscreen_order(overlay, pieces, top)[overlay.len()
                + window_pieces(pieces).len() + i] == #[trigger] top[i],
{
}

/// Where a window is to be drawn, and what its client drew.
#[derive(Debug)]
pub struct AssignedWindowRect {
    pub window: SurfaceId,
    pub surface_ids: Vec<PieceId>,
    pub is_fullscreen: bool,
    /// The rectangle that the window was given.
    pub assigned_logical: Rectangle,
    /// The size that the client committed to.
    pub reported_logical_size: Size,
    /// The rectangle that the root surface fills.
    pub raw_root_logical: Rectangle,
}

/// An `AssignedWindowRect` as plain values.
pub struct Assigned {
    pub window: SurfaceId,
    pub surface_ids: Seq<PieceId>,
    pub is_fullscreen: bool,
    pub assigned_logical: Rectangle,
    pub reported_logical_size: Size,
    pub raw_root_logical: Rectangle,
}

impl View for AssignedWindowRect {
    type V = Assigned;

    open spec fn view(&self) -> Assigned {
        Assigned {
            window: self.window,
            surface_ids: self.surface_ids@,
            is_fullscreen: self.is_fullscreen,
            assigned_logical: self.assigned_logical,
            reported_logical_size: self.reported_logical_size,
            raw_root_logical: self.raw_root_logical,
        }
    }
}

impl Assigned {
    /// Whether what the client drew is not what the window was given.
    pub open spec fn differs(self) -> bool {
        ||| self.assigned_logical != self.raw_root_logical
        ||| self.assigned_logical.size != self.reported_logical_size
    }
}

/// How a window comes into a frame.
#[derive(Clone, Copy, Debug, PartialEq, Eq, Structural)]
pub enum WindowPath {
    /// As its client drew it.
    SurfaceTree,
    /// Stretched to the rectangle that it was given.
    Stretched,
}

/// How a window comes into a frame: stretched where it is fullscreen and its client drew something
/// else than it was given.
pub open spec fn path_of(assignment: Assigned) -> WindowPath {
    if assignment.is_fullscreen && assignment.differs() {
        WindowPath::Stretched
    } else {
        WindowPath::SurfaceTree
    }
}

impl AssignedWindowRect {
    /// Whether what the client drew is not what the window was given.
    pub fn needs_correction(&self) -> (result: bool)
        ensures
            result == self@.differs(),
    {
        self.assigned_logical.loc != self.raw_root_logical.loc || self.assigned_logical.size
            != self.raw_root_logical.size || self.assigned_logical.size
            != self.reported_logical_size || self.raw_root_logical.size
            != self.reported_logical_size
    }

    /// How the window comes into a frame.
    pub fn assigned_window_render_path(&self) -> (path: WindowPath)
        ensures
            path == path_of(self@),
    {
        if self.is_fullscreen && self.needs_correction() {
            WindowPath::Stretched
        } else {
            WindowPath::SurfaceTree
        }
    }

    /// Whether the root surface is drawn into the whole rectangle that the window was given: so it
    /// is with a fullscreen window, and where the client drew no less than it committed to.
    pub fn root_fills_target(&self) -> (result: bool)
        ensures
            result == (self.is_fullscreen || !self.reported_logical_size.roomy()
                || self.raw_root_logical.size.w >= self.reported_logical_size.w
                || self.raw_root_logical.size.h >= self.reported_logical_size.h),
    {
        self.is_fullscreen || self.reported_logical_size.w <= 0 || self.reported_logical_size.h
            <= 0 || self.raw_root_logical.size.w >= self.reported_logical_size.w
            || self.raw_root_logical.size.h >= self.reported_logical_size.h
    }

    /// The size that the picture is measured against.
    pub fn projection_expected_size(&self) -> (size: Size)
        ensures
            size == self.raw_root_logical.size,
    {
        if self.raw_root_logical.size != self.reported_logical_size {
            self.raw_root_logical.size
        } else {
            self.reported_logical_size
        }
    }
}

/// A rectangle that stands to `target` as `geometry` stands to `source`.
pub open spec fn translated(geometry: Rectangle, source: Rectangle, target: Rectangle) -> Rectangle {
    Rectangle {
        loc: Point {
            x: target.loc.x.wrapping_add(geometry.loc.x.wrapping_sub(source.loc.x)),
            y: target.loc.y.wrapping_add(geometry.loc.y.wrapping_sub(source.loc.y)),
        },
        size: geometry.size,
    }
}

/// A rectangle that stands to `target` as `geometry` stands to `source`.
pub fn translate_geometry_between_rects(
    geometry: Rectangle,
    source: Rectangle,
    target: Rectangle,
) -> (rect: Rectangle)
    ensures
        rect == translated(geometry, source, target),
{
    Rectangle {
        loc: Point {
            x: target.loc.x.wrapping_add(geometry.loc.x.wrapping_sub(source.loc.x)),
            y: target.loc.y.wrapping_add(geometry.loc.y.wrapping_sub(source.loc.y)),
        },
        size: geometry.size,
    }
}

/// Going from one rectangle to another and back ends where it began.
pub proof fn translation_goes_back(geometry: Rectangle, source: Rectangle, target: Rectangle)
    ensures
        translated(translated(geometry, source, target), target, source) == geometry,
{
}

impl State {
    /// Where a window is to be drawn, and what its client drew; nothing, where the window was given
    /// no rectangle or has no surface.
    pub open spec fn assignment(
        self,
        window: SurfaceId,
        origin: Point,
        surface_ids: Seq<PieceId>,
    ) -> Option<Assigned> {
        match self.assigned_rect(window) {
            Some(assigned) => if surface_ids.len() == 0 {
                None
            } else {
                let drawn = match self.toplevel(window).surface_size {
                    Some(size) => size,
                    None => self.toplevel(window).geometry,
                };
                Some(
                    Assigned {
                        window,
                        surface_ids,
                        is_fullscreen: self.exclusive_mode(window)
                            == WindowFullscreenMode::Fullscreen,
                        assigned_logical: assigned,
                        reported_logical_size: match self.toplevel(window).committed_size {
                            Some(size) => size,
                            None => drawn,
                        },
                        raw_root_logical: Rectangle {
                            loc: Point {
                                x: assigned.loc.x.wrapping_sub(origin.x),
                                y: assigned.loc.y.wrapping_sub(origin.y),
                            },
                            size: drawn,
                        },
                    },
                )
            },
            None => None,
        }
    }
}

/// A window that may be drawn: the place of its geometry within its surface, and its surfaces.
#[derive(Debug)]
pub struct DrawnWindow {
    pub window: SurfaceId,
    pub origin: Point,
    pub surface_ids: Vec<PieceId>,
}

/// A `DrawnWindow` as plain values.
pub struct Drawn {
    pub window: SurfaceId,
    pub origin: Point,
    pub surface_ids: Seq<PieceId>,
}

impl View for DrawnWindow {
    type V = Drawn;

    open spec fn view(&self) -> Drawn {
        Drawn { window: self.window, origin: self.origin, surface_ids: self.surface_ids@ }
    }
}

/// Windows that may be drawn as plain values.
pub open spec fn drawn_view(windows: Seq<DrawnWindow>) -> Seq<Drawn> {
    Seq::new(windows.len(), |i: int| windows[i]@)
}

/// What there is to draw on an output: whether the pointer is on it, the pieces of its overlay and
/// top layers, all pieces in their usual order, and the windows.
#[derive(Debug)]
pub struct FrameSight {
    pub cursor: bool,
    pub overlay: Vec<Piece>,
    pub top: Vec<Piece>,
    pub pieces: Vec<Piece>,
    pub windows: Vec<DrawnWindow>,
}

/// What a frame is made of, front to back, and where its windows are to be drawn.
pub struct ComposedFrame {
    pub parts: Vec<FramePart>,
    pub assignments: Vec<AssignedWindowRect>,
}

impl State {
    /// Where windows are to be drawn.
    pub open spec fn assignments(self, windows: Seq<Drawn>) -> Seq<Assigned>
        decreases windows.len(),
    {
        if windows.len() == 0 {
            Seq::<Assigned>::empty()
        } else {
            let before = self.assignments(windows.drop_last());
            let last = windows.last();
            match self.assignment(last.window, last.origin, last.surface_ids) {
                Some(assignment) => before.push(assignment),
                None => before,
            }
        }
    }

    /// Where the windows on an output are to be drawn; nowhere, where the output has no place.
    pub open spec fn assignments_on(self, output: OutputId, windows: Seq<Drawn>) -> Seq<Assigned> {
        if self.output_rect(Some(output)) is Some {
            self.assignments(windows)
        } else {
            Seq::<Assigned>::empty()
        }
    }
}

/// An assignment as plain values, where there is one.
pub open spec fn assignment_view(assignment: Option<AssignedWindowRect>) -> Option<Assigned> {
    match assignment {
        Some(assignment) => Some(assignment@),
        None => None,
    }
}

/// The assignments as plain values.
pub open spec fn assignments_view(list: Seq<AssignedWindowRect>) -> Seq<Assigned> {
    Seq::new(list.len(), |i: int| list[i]@)
}

/// The last assignment that a piece belongs to.
pub open spec fn owner_of(assignments: Seq<Assigned>, id: PieceId) -> Option<int>
    decreases assignments.len(),
{
    if assignments.len() == 0 {
        None
    } else if assignments.last().surface_ids.contains(id) {
        Some(assignments.len() - 1)
    } else {
        owner_of(assignments.drop_last(), id)
    }
}

/// A part of a frame.
#[derive(Clone, Copy, Debug, PartialEq, Eq, Structural)]
pub enum FramePart {
    /// The pointer.
    Cursor,
    /// A piece as it is.
    Plain(Piece),
    /// All pieces of an assigned window, by the number of the assignment.
    Assigned(usize),
    /// What is behind everything else.
    Backdrop,
}

/// Whether a part is a piece of an assigned window.
pub open spec fn belongs(part: FramePart, surface_ids: Seq<PieceId>) -> bool {
    match part {
        FramePart::Plain(piece) => surface_ids.contains(piece.id),
        _ => false,
    }
}

/// The parts without the pieces of an assigned window.
pub open spec fn parts_without(parts: Seq<FramePart>, surface_ids: Seq<PieceId>) -> Seq<FramePart>
    decreases parts.len(),
{
    if parts.len() == 0 {
        parts
    } else if belongs(parts.last(), surface_ids) {
        parts_without(parts.drop_last(), surface_ids)
    } else {
        parts_without(parts.drop_last(), surface_ids).push(parts.last())
    }
}

/// The parts after one more piece: a fullscreen window comes in whole with its first piece.
pub open spec fn with_piece(
    parts: Seq<FramePart>,
    assignments: Seq<Assigned>,
    piece: Piece,
) -> Seq<FramePart> {
    match owner_of(assignments, piece.id) {
        Some(owner) => if parts.contains(FramePart::Assigned(owner as usize)) {
            parts
        } else if piece.kind == PieceKind::Window && assignments[owner].is_fullscreen {
            parts_without(parts, assignments[owner].surface_ids).push(
                FramePart::Assigned(owner as usize),
            )
        } else {
            parts.push(FramePart::Plain(piece))
        },
        None => parts.push(FramePart::Plain(piece)),
    }
}

/// The parts that pieces come to.
pub open spec fn parts_of(pieces: Seq<Piece>, assignments: Seq<Assigned>) -> Seq<FramePart>
    decreases pieces.len(),
{
    if pieces.len() == 0 {
        seq![]
    } else {
        with_piece(parts_of(pieces.drop_last(), assignments), assignments, pieces.last())
    }
}

/// The parts of a whole frame: the pointer in front, where it is on the output, and the backdrop
/// behind.
pub open spec fn frame_of(cursor: bool, pieces: Seq<Piece>, assignments: Seq<Assigned>) -> Seq<
    FramePart,
> {
    (if cursor {
        seq![FramePart::Cursor]
    } else {
        seq![]
    }) + parts_of(pieces, assignments) + seq![FramePart::Backdrop]
}

fn holds_id(ids: &Vec<PieceId>, id: PieceId) -> (result: bool)
    ensures
        result == ids@.contains(id),
{
    let mut index: usize = 0;
    while index < ids.len()
        invariant
            index <= ids.len(),
            forall|i: int| 0 <= i < index ==> ids@[i] != id,
        decreases ids.len() - index,
    {
        if ids[index] == id {
            assert(ids@.contains(ids@[index as int]));
            return true;
        }
        index = index + 1;
    }
    false
}

fn find_owner(assignments: &Vec<AssignedWindowRect>, id: PieceId) -> (owner: Option<usize>)
    ensures
        owner matches Some(owner) ==> owner < assignments.len(),
        owner_of(assignments_view(assignments@), id) == (match owner {
            Some(owner) => Some(owner as int),
            None => None,
        }),
{
    let ghost all = assignments_view(assignments@);
    let mut rest: usize = assignments.len();
    assert(all.take(rest as int) =~= all);
    while rest > 0
        invariant
            rest <= assignments.len(),
            all == assignments_view(assignments@),
            owner_of(all, id) == owner_of(all.take(rest as int), id),
        decreases rest,
    {
        assert(all.take(rest as int).drop_last() =~= all.take(rest - 1));
        if holds_id(&assignments[rest - 1].surface_ids, id) {
            return Some(rest - 1);
        }
        rest = rest - 1;
    }
    None
}

fn has_assigned(parts: &Vec<FramePart>, owner: usize) -> (result: bool)
    ensures
        result == parts@.contains(FramePart::Assigned(owner)),
{
    let mut index: usize = 0;
    while index < parts.len()
        invariant
            index <= parts.len(),
            forall|i: int| 0 <= i < index ==> parts@[i] != FramePart::Assigned(owner),
        decreases parts.len() - index,
    {
        if parts[index] == FramePart::Assigned(owner) {
            assert(parts@.contains(parts@[index as int]));
            return true;
        }
        index = index + 1;
    }
    false
}

fn retain_others(parts: &Vec<FramePart>, surface_ids: &Vec<PieceId>) -> (kept: Vec<FramePart>)
    ensures
        kept@ == parts_without(parts@, surface_ids@),
{
    let mut kept: Vec<FramePart> = Vec::new();
    let mut index: usize = 0;
    assert(parts@.take(0) =~= seq![]);
    while index < parts.len()
        invariant
            index <= parts.len(),
            kept@ == parts_without(parts@.take(index as int), surface_ids@),
        decreases parts.len() - index,
    {
        assert(parts@.take(index + 1).drop_last() =~= parts@.take(index as int));
        let part = parts[index];
        let gone = match part {
            FramePart::Plain(piece) => holds_id(surface_ids, piece.id),
            _ => false,
        };
        if !gone {
            kept.push(part);
        }
        index = index + 1;
    }
    assert(parts@.take(parts@.len() as int) =~= parts@);
    kept
}

/// The parts of a whole frame, from the front to the back.
pub fn frame_parts(
    cursor: bool,
    pieces: &Vec<Piece>,
    assignments: &Vec<AssignedWindowRect>,
) -> (frame: Vec<FramePart>)
    ensures
        frame@ == frame_of(cursor, pieces@, assignments_view(assignments@)),
{
    let ghost all = assignments_view(assignments@);
    let mut parts: Vec<FramePart> = Vec::new();
    let mut index: usize = 0;
    assert(pieces@.take(0) =~= seq![]);
    while index < pieces.len()
        invariant
            index <= pieces.len(),
            all == assignments_view(assignments@),
            parts@ == parts_of(pieces@.take(index as int), all),
        decreases pieces.len() - index,
    {
        assert(pieces@.take(index + 1).drop_last() =~= pieces@.take(index as int));
        let piece = pieces[index];
        match find_owner(assignments, piece.id) {
            Some(owner) => {
                if !has_assigned(&parts, owner) {
                    if piece.kind == PieceKind::Window && assignments[owner].is_fullscreen {
                        parts = retain_others(&parts, &assignments[owner].surface_ids);
                        parts.push(FramePart::Assigned(owner));
                    } else {
                        parts.push(FramePart::Plain(piece));
                    }
                }
            },
            None => parts.push(FramePart::Plain(piece)),
        }
        index = index + 1;
    }
    assert(pieces@.take(pieces@.len() as int) =~= pieces@);
    let mut frame: Vec<FramePart> = Vec::new();
    if cursor {
        frame.push(FramePart::Cursor);
    }
    frame.extend_from_slice(parts.as_slice());
    frame.push(FramePart::Backdrop);
    assert(frame@ =~= frame_of(cursor, pieces@, all));
    frame
}

proof fn owner_holds(assignments: Seq<Assigned>, id: PieceId)
    ensures
        owner_of(assignments, id) matches Some(owner) ==> 0 <= owner < assignments.len()
            && assignments[owner].surface_ids.contains(id),
    decreases assignments.len(),
{
    if assignments.len() > 0 {
        owner_holds(assignments.drop_last(), id);
    }
}

proof fn parts_without_keeps(parts: Seq<FramePart>, surface_ids: Seq<PieceId>)
    ensures
        forall|part: FramePart| #[trigger]
            parts_without(parts, surface_ids).contains(part) <==> parts.contains(part) && !belongs(
                part,
                surface_ids,
            ),
        parts_without(parts, surface_ids).len() <= parts.len(),
    decreases parts.len(),
{
    if parts.len() > 0 {
        let rest = parts.drop_last();
        parts_without_keeps(rest, surface_ids);
        assert forall|part: FramePart| #[trigger]
            parts_without(parts, surface_ids).contains(part) <==> parts.contains(part) && !belongs(
                part,
                surface_ids,
            ) by {
            assert(parts =~= rest.push(parts.last()));
            assert(parts.contains(part) <==> rest.contains(part) || part == parts.last()) by {
                if rest.contains(part) {
                    let i = choose|i: int| 0 <= i < rest.len() && rest[i] == part;
                    assert(parts[i] == part);
                }
                if part == parts.last() {
                    assert(parts[parts.len() - 1] == part);
                }
            }
            let kept = parts_without(rest, surface_ids);
            if !belongs(parts.last(), surface_ids) {
                assert(kept.push(parts.last()).contains(part) <==> kept.contains(part) || part
                    == parts.last()) by {
                    if kept.contains(part) {
                        let i = choose|i: int| 0 <= i < kept.len() && kept[i] == part;
                        assert(kept.push(parts.last())[i] == part);
                    }
                    if part == parts.last() {
                        assert(kept.push(parts.last())[kept.len() as int] == part);
                    }
                }
            }
        }
    }
}

/// How often an assigned window is among the parts.
pub open spec fn times_drawn(parts: Seq<FramePart>, owner: usize) -> nat
    decreases parts.len(),
{
    if parts.len() == 0 {
        0
    } else {
        times_drawn(parts.drop_last(), owner) + (if parts.last() == FramePart::Assigned(owner) {
            1nat
        } else {
            0
        })
    }
}

proof fn parts_without_counts(parts: Seq<FramePart>, surface_ids: Seq<PieceId>, owner: usize)
    ensures
        times_drawn(parts_without(parts, surface_ids), owner) == times_drawn(parts, owner),
    decreases parts.len(),
{
    if parts.len() > 0 {
        parts_without_counts(parts.drop_last(), surface_ids, owner);
        let kept = parts_without(parts.drop_last(), surface_ids);
        assert(kept.push(parts.last()).drop_last() =~= kept);
    }
}

proof fn undrawn_is_not_there(parts: Seq<FramePart>, owner: usize)
    ensures
        times_drawn(parts, owner) == 0 <==> !parts.contains(FramePart::Assigned(owner)),
    decreases parts.len(),
{
    if parts.len() > 0 {
        let rest = parts.drop_last();
        undrawn_is_not_there(rest, owner);
        let part = FramePart::Assigned(owner);
        if rest.contains(part) {
            let i = choose|i: int| 0 <= i < rest.len() && rest[i] == part;
            assert(parts[i] == part);
        }
        if parts.contains(part) && parts.last() != part {
            let i = choose|i: int| 0 <= i < parts.len() && parts[i] == part;
            assert(rest[i] == part);
        }
        if parts.last() == part {
            assert(parts[parts.len() - 1] == part);
        }
    }
}

/// A fullscreen window is drawn at most once, and where it is drawn, none of its pieces is drawn
/// beside it.
pub proof fn fullscreen_is_drawn_once(
    pieces: Seq<Piece>,
    assignments: Seq<Assigned>,
    owner: usize,
    piece: Piece,
)
    requires
        assignments.len() <= usize::MAX,
    ensures
        times_drawn(parts_of(pieces, assignments), owner) <= 1,
        times_drawn(parts_of(pieces, assignments), owner) == 1 && owner_of(assignments, piece.id)
            == Some(owner as int) ==> !parts_of(pieces, assignments).contains(
            FramePart::Plain(piece),
        ),
    decreases pieces.len(),
{
    let parts = parts_of(pieces, assignments);
    if pieces.len() > 0 {
        let before = parts_of(pieces.drop_last(), assignments);
        let added = pieces.last();
        fullscreen_is_drawn_once(pieces.drop_last(), assignments, owner, piece);
        owner_holds(assignments, added.id);
        owner_holds(assignments, piece.id);
        undrawn_is_not_there(before, owner);
        match owner_of(assignments, added.id) {
            Some(drawn) => if before.contains(FramePart::Assigned(drawn as usize)) {
            } else if added.kind == PieceKind::Window && assignments[drawn].is_fullscreen {
                let ids = assignments[drawn].surface_ids;
                let kept = parts_without(before, ids);
                parts_without_keeps(before, ids);
                parts_without_counts(before, ids, owner);
                assert(parts.drop_last() =~= kept);
                if parts.contains(FramePart::Plain(piece)) {
                    let i = choose|i: int| 0 <= i < parts.len() && parts[i] == FramePart::Plain(
                        piece,
                    );
                    assert(kept[i] == FramePart::Plain(piece));
                    assert(kept.contains(FramePart::Plain(piece)));
                }
            } else {
                assert(parts.drop_last() =~= before);
                if parts.contains(FramePart::Plain(piece)) && added != piece {
                    let i = choose|i: int| 0 <= i < parts.len() && parts[i] == FramePart::Plain(
                        piece,
                    );
                    assert(before[i] == FramePart::Plain(piece));
                    assert(before.contains(FramePart::Plain(piece)));
                }
            },
            None => {
                assert(parts.drop_last() =~= before);
                if parts.contains(FramePart::Plain(piece)) && added != piece {
                    let i = choose|i: int| 0 <= i < parts.len() && parts[i] == FramePart::Plain(
                        piece,
                    );
                    assert(before[i] == FramePart::Plain(piece));
                    assert(before.contains(FramePart::Plain(piece)));
                }
            },
        }
    }
}

/// A fullscreen window with a piece on the output is drawn.
pub proof fn fullscreen_is_drawn(pieces: Seq<Piece>, assignments: Seq<Assigned>, place: int)
    requires
        assignments.len() <= usize::MAX,
        0 <= place < pieces.len(),
        pieces[place].kind == PieceKind::Window,
        owner_of(assignments, pieces[place].id) matches Some(owner)
            && assignments[owner].is_fullscreen,
    ensures
        parts_of(pieces, assignments).contains(
            FramePart::Assigned(owner_of(assignments, pieces[place].id)->0 as usize),
        ),
    decreases pieces.len(),
{
    let owner = owner_of(assignments, pieces[place].id)->0 as usize;
    let part = FramePart::Assigned(owner);
    let before = parts_of(pieces.drop_last(), assignments);
    let parts = parts_of(pieces, assignments);
    if place < pieces.len() - 1 {
        fullscreen_is_drawn(pieces.drop_last(), assignments, place);
        match owner_of(assignments, pieces.last().id) {
            Some(drawn) => {
                parts_without_keeps(before, assignments[drawn].surface_ids);
                let kept = parts_without(before, assignments[drawn].surface_ids);
                assert(kept.contains(part));
                let i = choose|i: int| 0 <= i < kept.len() && kept[i] == part;
                let j = choose|j: int| 0 <= j < before.len() && before[j] == part;
                assert(kept.push(FramePart::Assigned(drawn as usize))[i] == part);
                assert(before.push(FramePart::Plain(pieces.last()))[j] == part);
            },
            None => {
                let j = choose|j: int| 0 <= j < before.len() && before[j] == part;
                assert(before.push(FramePart::Plain(pieces.last()))[j] == part);
            },
        }
    } else {
        owner_holds(assignments, pieces[place].id);
        if !before.contains(part) {
            let kept = parts_without(before, assignments[owner as int].surface_ids);
            assert(parts == kept.push(part));
            assert(parts[kept.len() as int] == part);
        }
    }
}

proof fn moving_keeps_sound(state: State, moves: Seq<(SurfaceId, Point)>)
    requires
        state.sound(),
    ensures
        state.moves_done(moves).sound(),
    decreases moves.len(),
{
    if moves.len() > 0 {
        moving_keeps_sound(state, moves.drop_last());
    }
}

proof fn resizing_keeps_sound(state: State, resizes: Seq<(SurfaceId, Size)>)
    requires
        state.sound(),
    ensures
        state.resizes_done(resizes).sound(),
    decreases resizes.len(),
{
    if resizes.len() > 0 {
        resizing_keeps_sound(state, resizes.drop_last());
    }
}

/// What is known when a frame begins.
#[derive(Clone, Copy, Debug, PartialEq, Eq)]
pub struct FrameStart {
    /// Whether a window is fullscreen on the output.
    pub fullscreen: bool,
    /// The timer to be stopped.
    pub timer: Option<TimerId>,
}

impl State {
    /// Whether a window of the current workspace is fullscreen on an output.
    pub open spec fn fullscreen_on(self, output: OutputId) -> bool {
        self.owner_window(self.current as int) matches Some(owner) && self.preferred_output(owner)
            == Some(output)
    }

    /// The backdrop of a screen in a frame: as large as the output, where that is in use, and with a
    /// change where all is to be drawn anew.
    pub open spec fn backdrop_for(
        self,
        screen: Screen,
        clear: Color,
        full_redraw: bool,
    ) -> SolidColorBuffer {
        let fitted = match self.output_rect(Some(screen.output)) {
            Some(rect) => screen.backdrop.looking(Extent::whole(rect.size), clear),
            None => screen.backdrop,
        };
        if full_redraw {
            fitted.changed()
        } else {
            fitted
        }
    }
}

impl Raven {
    /// Where a window is to be drawn; `origin` is the place of its geometry within its surface.
    pub fn window_assignment_for_output(
        &self,
        window: SurfaceId,
        origin: Point,
        surface_ids: Vec<PieceId>,
    ) -> (assignment: Option<AssignedWindowRect>)
        requires
            self@.sound(),
        ensures
            assignment_view(assignment) == self@.assignment(window, origin, surface_ids@),
    {
        let assigned = match self.assigned_rect_for_window(window) {
            Some(rect) => rect,
            None => return None,
        };
        if surface_ids.len() == 0 {
            return None;
        }
        let toplevel = self.toplevel(window);
        let drawn = match toplevel.surface_size {
            Some(size) => size,
            None => toplevel.geometry,
        };
        let reported = match self.committed_reported_size_for_window(window) {
            Some(size) => size,
            None => drawn,
        };
        Some(
            AssignedWindowRect {
                window,
                surface_ids,
                is_fullscreen: self.window_effective_fullscreen_state(window),
                assigned_logical: assigned,
                reported_logical_size: reported,
                raw_root_logical: Rectangle {
                    loc: Point {
                        x: assigned.loc.x.wrapping_sub(origin.x),
                        y: assigned.loc.y.wrapping_sub(origin.y),
                    },
                    size: drawn,
                },
            },
        )
    }

    /// Where the windows on an output are to be drawn; nowhere, where the output has no place.
    pub fn window_assignments_for_output(&self, output: OutputId, windows: &Vec<DrawnWindow>) -> (
    assignments: Vec<AssignedWindowRect>)
        requires
            self@.sound(),
        ensures
            assignments_view(assignments@) == self@.assignments_on(output, drawn_view(windows@)),
    {
        let ghost all = drawn_view(windows@);
        let mut assignments: Vec<AssignedWindowRect> = Vec::new();
        assert(assignments_view(assignments@) =~= seq![]);
        if output_geometry(&self.outputs, output).is_none() {
            return assignments;
        }
        let mut index: usize = 0;
        assert(all.take(0) =~= seq![]);
        while index < windows.len()
            invariant
                index <= windows.len(),
                self@.sound(),
                all == drawn_view(windows@),
                assignments_view(assignments@) == self@.assignments(all.take(index as int)),
            decreases windows.len() - index,
        {
            assert(all.take(index + 1).drop_last() =~= all.take(index as int));
            assert(all[index as int] == windows[index as int]@);
            let ghost before = assignments_view(assignments@);
            let window = &windows[index];
            let mut surface_ids: Vec<PieceId> = Vec::new();
            surface_ids.extend_from_slice(window.surface_ids.as_slice());
            assert(surface_ids@ =~= window.surface_ids@);
            if let Some(assignment) = self.window_assignment_for_output(
                window.window,
                window.origin,
                surface_ids,
            ) {
                assignments.push(assignment);
                assert(assignments_view(assignments@) =~= before.push(assignment@));
            }
            index = index + 1;
        }
        assert(all.take(all.len() as int) =~= all);
        assignments
    }

    /// What a frame of an output is made of, front to back, and where its windows are to be drawn.
    /// A fullscreen window changes what is in front of what, and is drawn where it was assigned to.
    pub fn compose_frame(&self, output: OutputId, fullscreen: bool, sight: &FrameSight) -> (frame:
        ComposedFrame)
        requires
            self@.sound(),
        ensures
            assignments_view(frame.assignments@) == self@.assignments_on(
                output,
                drawn_view(sight.windows@),
            ),
            frame.parts@ == frame_of(
                sight.cursor,
                if fullscreen {
                    fullscreen_order(sight.overlay@, sight.pieces@, sight.top@)
                } else {
                    sight.pieces@
                },
                self@.assignments_on(output, drawn_view(sight.windows@)),
            ),
    {
        let assignments = self.window_assignments_for_output(output, &sight.windows);
        let parts = if fullscreen {
            let pieces = reorder_for_fullscreen(&sight.overlay, &sight.pieces, &sight.top);
            frame_parts(sight.cursor, &pieces, &assignments)
        } else {
            frame_parts(sight.cursor, &sight.pieces, &assignments)
        };
        ComposedFrame { parts, assignments }
    }

    /// Begins a frame of a screen: carries out what waited for it, counts why a fullscreen window
    /// is not shown directly, and says what to begin with, unless no frame may be drawn now.
    pub fn begin_frame(
        &mut self,
        screen: &mut Screen,
        output_name: &str,
        scanout_enabled: bool,
        full_redraw: bool,
        clear: Color,
        sight: OutputSight,
        counters: &mut RejectionCounters,
    ) -> (start: Option<FrameStart>)
        requires
            old(self)@.sound(),
        ensures
            final(self)@ == old(self)@.frame_flushed(),
            final(self)@.sound(),
            forall|name: Seq<char>, cause: ScanoutRejection|
                final(counters).count_of(name, cause) == (if name == output_name@
                    && scanout::frame_rejection(
                    final(self)@.fullscreen_on(old(screen).output),
                    scanout_enabled,
                    sight,
                ) == Some(cause) {
                    old(counters).count_of(name, cause).saturating_add(1)
                } else {
                    old(counters).count_of(name, cause)
                }),
            *final(screen) == (Screen {
                clock: old(screen).clock.begun(),
                backdrop: if old(screen).clock.redraw_state.may_draw() {
                    final(self)@.backdrop_for(*old(screen), clear, full_redraw)
                } else {
                    old(screen).backdrop
                },
                ..*old(screen)
            }),
            start is Some <==> old(screen).clock.redraw_state.may_draw(),
            start matches Some(start) ==> start.fullscreen == final(self)@.fullscreen_on(
                old(screen).output,
            ) && start.timer == (match old(screen).clock.redraw_state {
                RedrawState::WaitingForEstimatedVBlankAndQueued(timer) => Some(timer),
                _ => None,
            }),
    {
        self.flush_interactive_frame_updates();
        proof {
            let moved = (State { moves: seq![], ..old(self)@ }).moves_done(old(self)@.moves);
            moving_keeps_sound(State { moves: seq![], ..old(self)@ }, old(self)@.moves);
            resizing_keeps_sound(State { resizes: seq![], ..moved }, moved.resizes);
        }
        let fullscreen = self.output_has_fullscreen_window(screen.output);
        if let Some(reason) = rejection_for_frame(fullscreen, scanout_enabled, sight) {
            let _ = counters.record_scanout_rejection(output_name, reason);
        }
        let mut clock = screen.clock;
        let begun = clock.begin_render();
        screen.clock = clock;
        match begun {
            Some(timer) => {
                if let Some(rect) = output_geometry(&self.outputs, screen.output) {
                    screen.backdrop.update(Extent::of(rect.size), clear);
                }
                if full_redraw {
                    screen.backdrop.touch();
                }
                Some(FrameStart { fullscreen, timer })
            },
            None => None,
        }
    }
}

} // verus!
