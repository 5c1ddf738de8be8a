//! What is at the pointer, and what its motion and its buttons do.

use crate::config::keybinds::ModifiersState;
use crate::geometry::{Point, Rectangle, Size};
use crate::input::layers;
use crate::input::layers::{find_focus_under, holds_focus, LayerSight, LayerSights, Sights, SurfaceHit};
use crate::state::fullscreen_laws;
use crate::state::lists::SurfaceId;
use crate::state::raven::{Raven, State};
use crate::state::space;
use crate::state::toplevel::OutputId;
use vstd::prelude::*;

verus! {

broadcast use vstd::std_specs::hash::group_hash_axioms;

/// How much time lies between two frames that are drawn for the pointer alone, in milliseconds.
pub const POINTER_REDRAW_MIN_DELTA_MS: u32 = 8;

/// A surface and its place on the screen.
#[derive(Clone, Copy, Debug, PartialEq, Eq, Structural)]
pub struct SurfacePlace {
    pub surface: SurfaceId,
    pub place: Point,
}

/// What is at a point.
#[derive(Clone, Copy, Debug, PartialEq, Eq, Structural)]
pub struct PointContents {
    pub output: Option<OutputId>,
    pub surface: Option<SurfacePlace>,
    pub window: Option<SurfaceId>,
    pub layer: Option<SurfaceId>,
}

/// The window at a point: which surface of it, and where the window is drawn.
#[derive(Clone, Copy, Debug, PartialEq, Eq, Structural)]
pub struct WindowHit {
    pub window: SurfaceId,
    pub render_location: Point,
    pub hit: Option<SurfaceHit>,
}

/// Nothing is there.
pub open spec fn nothing_there() -> PointContents {
    PointContents { output: None, surface: None, window: None, layer: None }
}

/// The sum of two places.
pub open spec fn place_sum(one: Point, other: Point) -> Point {
    Point { x: one.x.wrapping_add(other.x), y: one.y.wrapping_add(other.y) }
}

fn sum_of_places(one: Point, other: Point) -> (sum: Point)
    ensures
        sum == place_sum(one, other),
{
    Point { x: one.x.wrapping_add(other.x), y: one.y.wrapping_add(other.y) }
}

/// What a layer surface has at the point.
pub open spec fn layer_contents(output: OutputId, origin: Point, sight: LayerSight, popup: bool) -> Option<
    PointContents,
> {
    let hit = if popup {
        sight.popup
    } else {
        sight.hit
    };
    match (sight.place, hit) {
        (Some(place), Some(hit)) => Some(
            PointContents {
                output: Some(output),
                surface: Some(
                    SurfacePlace {
                        surface: hit.surface,
                        place: place_sum(place_sum(origin, place), hit.local),
                    },
                ),
                window: None,
                layer: Some(sight.surface),
            },
        ),
        _ => None,
    }
}

/// What the topmost layer surface of a layer has at the point.
pub open spec fn layer_under(
    output: OutputId,
    origin: Point,
    list: Seq<LayerSight>,
    popup: bool,
) -> Option<PointContents>
    decreases list.len(),
{
    if list.len() == 0 {
        None
    } else {
        match layer_contents(output, origin, list.last(), popup) {
            Some(contents) => Some(contents),
            None => layer_under(output, origin, list.drop_last(), popup),
        }
    }
}

/// What a window has at the point.
pub open spec fn window_contents(output: OutputId, window: Option<WindowHit>) -> Option<
    PointContents,
> {
    match window {
        Some(window) => match window.hit {
            Some(hit) => Some(
                PointContents {
                    output: Some(output),
                    surface: Some(
                        SurfacePlace {
                            surface: hit.surface,
                            place: place_sum(hit.local, window.render_location),
                        },
                    ),
                    window: Some(window.window),
                    layer: None,
                },
            ),
            None => None,
        },
        None => None,
    }
}

/// The first of two that is there.
pub open spec fn first_there(one: Option<PointContents>, other: Option<PointContents>) -> Option<
    PointContents,
> {
    match one {
        Some(contents) => Some(contents),
        None => other,
    }
}

/// What a layer has at the point, its popups first.
pub open spec fn whole_layer_under(output: OutputId, origin: Point, list: Seq<LayerSight>) -> Option<
    PointContents,
> {
    first_there(
        layer_under(output, origin, list, true),
        layer_under(output, origin, list, false),
    )
}

/// What the layers below the windows have at the point: popups first.
pub open spec fn lower_layers_under(output: OutputId, origin: Point, sights: Sights) -> Option<
    PointContents,
> {
    first_there(
        first_there(
            layer_under(output, origin, sights.bottom, true),
            layer_under(output, origin, sights.background, true),
        ),
        first_there(
            layer_under(output, origin, sights.bottom, false),
            layer_under(output, origin, sights.background, false),
        ),
    )
}

/// What is at the point of an output: the overlay, then the top layer and the windows, and last what
/// lies below. A fullscreen window comes before the top layer.
pub open spec fn contents_at(
    output: OutputId,
    origin: Point,
    fullscreen: bool,
    sights: Sights,
    window: Option<WindowHit>,
) -> PointContents {
    let overlay = whole_layer_under(output, origin, sights.overlay);
    let top = whole_layer_under(output, origin, sights.top);
    let shown = window_contents(output, window);
    let middle = if fullscreen {
        first_there(shown, top)
    } else {
        first_there(top, shown)
    };
    match first_there(
        first_there(overlay, middle),
        lower_layers_under(output, origin, sights),
    ) {
        Some(contents) => contents,
        None => PointContents { output: Some(output), ..nothing_there() },
    }
}

fn find_layer_under(output: OutputId, origin: Point, list: &Vec<LayerSight>, popup: bool) -> (contents:
    Option<PointContents>)
    ensures
        contents == layer_under(output, origin, list@, popup),
{
    let mut rest: usize = list.len();
    assert(list@.take(rest as int) =~= list@);
    while rest > 0
        invariant
            rest <= list.len(),
            layer_under(output, origin, list@, popup) == layer_under(
                output,
                origin,
                list@.take(rest as int),
                popup,
            ),
        decreases rest,
    {
        assert(list@.take(rest as int).drop_last() =~= list@.take(rest - 1));
        let sight = list[rest - 1];
        let hit = if popup {
            sight.popup
        } else {
            sight.hit
        };
        if let (Some(place), Some(hit)) = (sight.place, hit) {
            return Some(
                PointContents {
                    output: Some(output),
                    surface: Some(
                        SurfacePlace {
                            surface: hit.surface,
                            place: sum_of_places(sum_of_places(origin, place), hit.local),
                        },
                    ),
                    window: None,
                    layer: Some(sight.surface),
                },
            );
        }
        rest = rest - 1;
    }
    None
}

fn find_in_layer(output: OutputId, origin: Point, list: &Vec<LayerSight>) -> (contents: Option<
    PointContents,
>)
    ensures
        contents == whole_layer_under(output, origin, list@),
{
    match find_layer_under(output, origin, list, true) {
        Some(contents) => Some(contents),
        None => find_layer_under(output, origin, list, false),
    }
}

fn find_below(output: OutputId, origin: Point, sights: &LayerSights) -> (contents: Option<
    PointContents,
>)
    ensures
        contents == lower_layers_under(output, origin, sights@),
{
    if let Some(contents) = find_layer_under(output, origin, &sights.bottom, true) {
        return Some(contents);
    }
    if let Some(contents) = find_layer_under(output, origin, &sights.background, true) {
        return Some(contents);
    }
    if let Some(contents) = find_layer_under(output, origin, &sights.bottom, false) {
        return Some(contents);
    }
    find_layer_under(output, origin, &sights.background, false)
}

fn find_window(output: OutputId, window: Option<WindowHit>) -> (contents: Option<PointContents>)
    ensures
        contents == window_contents(output, window),
{
    match window {
        Some(window) => match window.hit {
            Some(hit) => Some(
                PointContents {
                    output: Some(output),
                    surface: Some(
                        SurfacePlace {
                            surface: hit.surface,
                            place: sum_of_places(hit.local, window.render_location),
                        },
                    ),
                    window: Some(window.window),
                    layer: None,
                },
            ),
            None => None,
        },
        None => None,
    }
}

fn find_contents(
    output: OutputId,
    origin: Point,
    fullscreen: bool,
    sights: &LayerSights,
    window: Option<WindowHit>,
) -> (contents: PointContents)
    ensures
        contents == contents_at(output, origin, fullscreen, sights@, window),
{
    if let Some(contents) = find_in_layer(output, origin, &sights.overlay) {
        return contents;
    }
    let shown = find_window(output, window);
    if fullscreen {
        if let Some(contents) = shown {
            return contents;
        }
        if let Some(contents) = find_in_layer(output, origin, &sights.top) {
            return contents;
        }
    } else {
        if let Some(contents) = find_in_layer(output, origin, &sights.top) {
            return contents;
        }
        if let Some(contents) = shown {
            return contents;
        }
    }
    match find_below(output, origin, sights) {
        Some(contents) => contents,
        None => PointContents { output: Some(output), surface: None, window: None, layer: None },
    }
}

/// A fullscreen window hides the top layer from the pointer, but not the overlay.
pub proof fn fullscreen_takes_pointer(
    output: OutputId,
    origin: Point,
    sights: Sights,
    window: WindowHit,
)
    requires
        window.hit is Some,
    ensures
        whole_layer_under(output, origin, sights.overlay) is None ==> contents_at(
            output,
            origin,
            true,
            sights,
            Some(window),
        ).window == Some(window.window),
        whole_layer_under(output, origin, sights.overlay) matches Some(overlay) ==> contents_at(
            output,
            origin,
            true,
            sights,
            Some(window),
        ) == overlay,
{
}

/// Which hold a client has on the pointer.
#[derive(Clone, Copy, Debug, PartialEq, Eq, Structural)]
pub enum ConstraintKind {
    /// The pointer stays where it is.
    Locked,
    /// The pointer stays on the surface.
    Confined,
}

/// The hold that the client of the surface at the pointer has on it.
#[derive(Clone, Copy, Debug, PartialEq, Eq, Structural)]
pub struct Constraint {
    pub kind: ConstraintKind,
    pub active: bool,
    /// Whether the pointer is within the region that the hold is for; nothing, where it is for the
    /// whole surface.
    pub in_region: Option<bool>,
}

impl Constraint {
    /// Whether the hold is for the place of the pointer.
    pub open spec fn applies(self) -> bool {
        self.in_region != Some(false)
    }

    /// Whether the hold is for the place of the pointer.
    pub fn is_for_pointer(self) -> (result: bool)
        ensures
            result == self.applies(),
    {
        match self.in_region {
            Some(inside) => inside,
            None => true,
        }
    }
}

/// What is left to do for the pointer.
#[derive(Clone, Copy, Debug, PartialEq, Eq, Structural)]
pub enum MotionAction {
    /// Nothing.
    Ignore,
    /// Tell this surface how far the pointer would have moved, and that it did not move.
    RelativeOnly(SurfacePlace),
    /// Tell that the pointer moved.
    Motion,
}

/// An edge in each direction.
#[derive(Clone, Copy, Debug, PartialEq, Eq, Structural)]
pub struct ResizeEdges {
    pub left: bool,
    pub top: bool,
}

/// The edges nearest to a point of a window; the point is given by twice its coordinates, rounded
/// down.
pub open spec fn nearest_edges(doubled_x: i64, doubled_y: i64, size: Size) -> ResizeEdges {
    ResizeEdges {
        left: doubled_x < (if size.w > 1 {
            size.w as int
        } else {
            1
        }),
        top: doubled_y < (if size.h > 1 {
            size.h as int
        } else {
            1
        }),
    }
}

/// The edges nearest to a point of a window; the point is given by twice its coordinates, rounded
/// down.
pub fn resize_edges_from_local_point(doubled_x: i64, doubled_y: i64, size: Size) -> (edges: ResizeEdges)
    ensures
        edges == nearest_edges(doubled_x, doubled_y, size),
{
    let width: i64 = if size.w > 1 {
        size.w as i64
    } else {
        1
    };
    let height: i64 = if size.h > 1 {
        size.h as i64
    } else {
        1
    };
    ResizeEdges { left: doubled_x < width, top: doubled_y < height }
}

/// A button of the pointer.
#[derive(Clone, Copy, Debug, PartialEq, Eq, Structural)]
pub enum Button {
    Left,
    Right,
    Other,
}

/// What a button begins.
#[derive(Clone, Copy, Debug, PartialEq, Eq, Structural)]
pub enum Grab {
    Nothing,
    /// Dragging a window about.
    Move { window: SurfaceId, from: Point },
    /// Dragging the edges of a window.
    Resize { window: SurfaceId, edges: ResizeEdges, from: Rectangle },
}

/// The window at the pointer: where it is drawn, and where in it the pointer is, by twice the
/// coordinates, rounded down.
#[derive(Clone, Copy, Debug, PartialEq, Eq, Structural)]
pub struct WindowAtPointer {
    pub window: SurfaceId,
    pub render_location: Point,
    pub doubled_x: i64,
    pub doubled_y: i64,
}

/// Who holds the pointer and the keyboard.
#[derive(Clone, Copy, Debug, PartialEq, Eq, Structural)]
pub struct Grabs {
    pub pointer: bool,
    pub keyboard: bool,
    pub input_method: bool,
}

impl Grabs {
    /// Whether the pointer may change the focus.
    pub open spec fn allow_focus(self) -> bool {
        !self.pointer && (!self.keyboard || self.input_method)
    }
}

impl State {
    /// What a button begins: with the main key the left button drags a window about; with the main
    /// key or Alt the right one drags its edges.
    pub open spec fn grab_begun(
        self,
        button: Button,
        pressed: bool,
        modifiers: ModifiersState,
        grabbed: bool,
        at: Option<WindowAtPointer>,
    ) -> Grab {
        let main = self.settings.general.main_key.held(modifiers);
        if !pressed || grabbed {
            Grab::Nothing
        } else {
            match at {
                Some(at) => if button == Button::Left && main {
                    match space::place_of(self.elements, at.window) {
                        Some(from) => Grab::Move { window: at.window, from },
                        None => Grab::Nothing,
                    }
                } else if button == Button::Right && (main || modifiers.alt) {
                    let size = self.toplevel(at.window).geometry;
                    Grab::Resize {
                        window: at.window,
                        edges: nearest_edges(at.doubled_x, at.doubled_y, size),
                        from: Rectangle { loc: at.render_location, size },
                    }
                } else {
                    Grab::Nothing
                },
                None => Grab::Nothing,
            }
        }
    }

    /// The state with the window raised that a button took hold of.
    pub open spec fn grab_raised(self, grab: Grab) -> State {
        match grab {
            Grab::Nothing => self,
            Grab::Move { window, .. } => self.raised_in_layer(window),
            Grab::Resize { window, .. } => self.raised_in_layer(window),
        }
    }

    /// Whether the surface that has the keyboard keeps it while the pointer moves: a layer surface
    /// above the windows does.
    pub open spec fn focus_stays(self, sights: Sights) -> bool {
        self.keyboard_focus matches Some(focused) && (layers::keeps_focus(sights.overlay, focused)
            || layers::keeps_focus(sights.top, focused))
    }

    /// The state with the keyboard given to what is at the pointer: a layer surface above the
    /// windows, or else the window, or else a layer surface below. `sights` are those of the first
    /// output; with `raise` the window is raised.
    #[verifier::opaque]
    pub open spec fn pointer_focused(self, grabs: Grabs, sights: Sights, raise: bool) -> State {
        if !grabs.allow_focus() || self.outputs.len() == 0 || self.outputs[0].geometry is None {
            self
        } else if !raise && self.focus_stays(sights) {
            self
        } else {
            match layers::focus_under_point(sights.overlay, sights.top) {
                Some(surface) => self.focus_set(Some(surface)),
                None => match self.pointer_window {
                    Some(window) => if raise {
                        self.raised_in_layer(window).focus_set(Some(window))
                    } else {
                        self.focus_set(Some(window))
                    },
                    None => match layers::focus_under_point(sights.bottom, sights.background) {
                        Some(surface) => self.focus_set(Some(surface)),
                        None => self,
                    },
                },
            }
        }
    }

    /// The state with the output to be drawn anew that the pointer is on.
    pub open spec fn pointer_redraw_asked(self, contents: PointContents) -> State {
        match contents.output {
            Some(output) => State { redraw_outputs: self.redraw_outputs.insert(output), ..self },
            None => match self.pointer_output {
                Some(output) => State {
                    redraw_outputs: self.redraw_outputs.insert(output),
                    ..self
                },
                None => State { redraw_all: true, ..self },
            },
        }
    }

    /// What is at the pointer.
    pub open spec fn contents_here(self, sights: Sights, window: Option<WindowHit>) -> PointContents {
        match self.pointer_output {
            Some(output) => match space::geometry_of(self.outputs, output) {
                Some(geometry) => contents_at(
                    output,
                    geometry.loc,
                    self.owner_window(self.current as int) matches Some(owner)
                        && self.preferred_output(owner) == Some(output),
                    sights,
                    window,
                ),
                None => nothing_there(),
            },
            None => nothing_there(),
        }
    }
}

/// What is kept of the pointer between two events.
#[derive(Clone, Copy, Debug, PartialEq, Eq)]
pub struct PointerState {
    pub contents: PointContents,
    /// When a frame was last drawn for the pointer alone, in milliseconds.
    pub last_redraw_msec: Option<u32>,
}

/// Whether enough time passed since the last frame that was drawn for the pointer alone.
pub open spec fn redraw_is_due(last: Option<u32>, now: u32) -> bool {
    match last {
        Some(last) => now.wrapping_sub(last) >= POINTER_REDRAW_MIN_DELTA_MS,
        None => true,
    }
}

/// What the pointer does to the state in one motion: the state, what is kept, and what is left to
/// do.
pub struct MotionOutcome {
    pub state: State,
    pub pointer: PointerState,
    pub action: MotionAction,
}

impl PointerState {
    /// Nothing is known yet.
    pub fn new() -> (pointer: PointerState)
        ensures
            pointer == (PointerState { contents: nothing_there(), last_redraw_msec: None }),
    {
        PointerState {
            contents: PointContents { output: None, surface: None, window: None, layer: None },
            last_redraw_msec: None,
        }
    }

    /// The pointer after a frame is asked for, where one is due.
    pub open spec fn throttled(self, now: u32) -> PointerState {
        if redraw_is_due(self.last_redraw_msec, now) {
            PointerState { last_redraw_msec: Some(now), ..self }
        } else {
            self
        }
    }

    /// The state after a frame is asked for, where one is due.
    pub open spec fn throttled_state(self, state: State, now: u32) -> State {
        if redraw_is_due(self.last_redraw_msec, now) {
            state.pointer_redraw_asked(self.contents)
        } else {
            state
        }
    }

    /// Whether the hold of the client at the pointer keeps it where it is.
    pub open spec fn locked(self, constraint: Option<Constraint>) -> bool {
        self.contents.surface is Some && (constraint matches Some(constraint) && constraint.active
            && constraint.applies() && constraint.kind == ConstraintKind::Locked)
    }

    /// Whether the hold of the client at the pointer keeps it on the surface, and it is about to
    /// leave.
    pub open spec fn held_back(self, constraint: Option<Constraint>, under: PointContents) -> bool {
        self.contents.surface matches Some(held) && (constraint matches Some(constraint)
            && constraint.active && constraint.applies() && constraint.kind
            == ConstraintKind::Confined) && !(under.surface matches Some(surface)
            && surface.surface == held.surface)
    }

    /// What a motion of the pointer does.
    pub open spec fn moved(
        self,
        state: State,
        constraint: Option<Constraint>,
        sights: Sights,
        window: Option<WindowHit>,
        first_sights: Sights,
        grabs: Grabs,
        now: u32,
    ) -> MotionOutcome {
        let under = state.contents_here(sights, window);
        if self.locked(constraint) {
            MotionOutcome {
                state: self.throttled_state(state, now),
                pointer: self.throttled(now),
                action: MotionAction::RelativeOnly(self.contents.surface->0),
            }
        } else if self.held_back(constraint, under) {
            MotionOutcome {
                state,
                pointer: self,
                action: MotionAction::RelativeOnly(self.contents.surface->0),
            }
        } else {
            let there = PointerState { contents: under, ..self };
            let focused = if state.settings.general.focus_follow_mouse {
                state.pointer_focused(grabs, first_sights, false)
            } else {
                state
            };
            MotionOutcome {
                state: there.throttled_state(focused, now),
                pointer: there.throttled(now),
                action: MotionAction::Motion,
            }
        }
    }

    /// Whether a hold of the client at the pointer begins.
    pub open spec fn hold_begins(
        self,
        pointer_focus: Option<SurfaceId>,
        constraint: Option<Constraint>,
    ) -> bool {
        self.contents.surface matches Some(surface) && pointer_focus == Some(surface.surface) && (
        constraint matches Some(constraint) && !constraint.active && constraint.applies())
    }

    /// Whether a hold of the client at the pointer begins.
    pub fn maybe_activate_pointer_constraint(
        &self,
        pointer_focus: Option<SurfaceId>,
        constraint: Option<Constraint>,
    ) -> (activate: bool)
        ensures
            activate == self.hold_begins(pointer_focus, constraint),
    {
        match (self.contents.surface, pointer_focus, constraint) {
            (Some(surface), Some(focus), Some(constraint)) => surface.surface == focus
                && !constraint.active && constraint.is_for_pointer(),
            _ => false,
        }
    }

    /// Whether a client may say where the pointer is: its hold is active, and its surface is at the
    /// pointer.
    pub fn accepts_position_hint(&self, surface: SurfaceId, constraint: Option<Constraint>) -> (accepts:
        bool)
        ensures
            accepts == ((constraint matches Some(constraint) && constraint.active) && (
            self.contents.surface matches Some(there) && there.surface == surface)),
    {
        match (constraint, self.contents.surface) {
            (Some(constraint), Some(there)) => constraint.active && there.surface == surface,
            _ => false,
        }
    }

    /// Takes in what is at the pointer, and says whether it changed.
    pub fn update_pointer_contents(&mut self, under: PointContents) -> (changed: bool)
        ensures
            *final(self) == (PointerState { contents: under, ..*old(self) }),
            changed == (old(self).contents != under),
    {
        if self.contents == under {
            return false;
        }
        self.contents = under;
        true
    }
}

impl Raven {
    /// What is at the pointer; `sights` are those of the output that it is on.
    pub fn contents_under(&self, sights: &LayerSights, window: Option<WindowHit>) -> (contents:
        PointContents)
        requires
            self@.sound(),
        ensures
            contents == self@.contents_here(sights@, window),
    {
        if let Some(output) = self.pointer_output {
            if let Some(geometry) = space::output_geometry(&self.outputs, output) {
                let fullscreen = self.output_has_fullscreen_window(output);
                return find_contents(output, geometry.loc, fullscreen, sights, window);
            }
        }
        PointContents { output: None, surface: None, window: None, layer: None }
    }

    /// Asks for the output to be drawn anew that the pointer is on.
    pub fn queue_redraw_for_pointer_output(&mut self, pointer: &PointerState)
        ensures
            final(self)@ == old(self)@.pointer_redraw_asked(pointer.contents),
    {
        let output = match pointer.contents.output {
            Some(output) => Some(output),
            None => self.pointer_output,
        };
        match output {
            Some(output) => {
                self.redraw_outputs.insert(output);
            },
            None => {
                self.redraw_all = true;
            },
        }
    }

    /// Looks again at what is at the pointer, and asks for a frame where that changed.
    pub fn refresh_pointer_contents(&mut self, pointer: &mut PointerState, under: PointContents) -> (changed:
        bool)
        ensures
            changed == (old(pointer).contents != under),
            *final(pointer) == (PointerState { contents: under, ..*old(pointer) }),
            final(self)@ == (if changed {
                old(self)@.pointer_redraw_asked(under)
            } else {
                old(self)@
            }),
    {
        if !pointer.update_pointer_contents(under) {
            return false;
        }
        self.queue_redraw_for_pointer_output(pointer);
        true
    }

    /// Asks for a frame for the pointer alone, where one is due.
    pub fn queue_pointer_redraw_throttled(&mut self, pointer: &mut PointerState, event_time_msec: u32)
        ensures
            final(self)@ == old(pointer).throttled_state(old(self)@, event_time_msec),
            *final(pointer) == old(pointer).throttled(event_time_msec),
    {
        let due = match pointer.last_redraw_msec {
            Some(last) => event_time_msec.wrapping_sub(last) >= POINTER_REDRAW_MIN_DELTA_MS,
            None => true,
        };
        if due {
            pointer.last_redraw_msec = Some(event_time_msec);
            self.queue_redraw_for_pointer_output(pointer);
        }
    }

    /// Gives the keyboard to what is at the pointer; `sights` are those of the first output.
    pub fn update_keyboard_focus(&mut self, grabs: Grabs, sights: &LayerSights, raise: bool)
        requires
            old(self)@.sound(),
        ensures
            final(self)@ == old(self)@.pointer_focused(grabs, sights@, raise),
            final(self)@.sound(),
    {
        proof {
            reveal(State::pointer_focused);
        }
        if grabs.pointer || (grabs.keyboard && !grabs.input_method) {
            return;
        }
        if self.outputs.len() == 0 || self.outputs[0].geometry.is_none() {
            return;
        }
        if !raise {
            if let Some(focused) = self.keyboard_focus {
                if holds_focus(&sights.overlay, focused) || holds_focus(&sights.top, focused) {
                    return;
                }
            }
        }
        if let Some(surface) = find_focus_under(&sights.overlay, &sights.top) {
            self.set_keyboard_focus(Some(surface));
            return;
        }
        if let Some(window) = self.pointer_window {
            if raise {
                self.raise_window_preserving_layer(window);
            }
            self.set_keyboard_focus(Some(window));
            return;
        }
        if let Some(surface) = find_focus_under(&sights.bottom, &sights.background) {
            self.set_keyboard_focus(Some(surface));
        }
    }

    /// The pointer moved. `sights` and `window` are what is at its new place, `first_sights` the
    /// layer surfaces of the first output.
    pub fn handle_pointer_motion(
        &mut self,
        pointer: &mut PointerState,
        constraint: Option<Constraint>,
        sights: &LayerSights,
        window: Option<WindowHit>,
        first_sights: &LayerSights,
        grabs: Grabs,
        time_msec: u32,
    ) -> (action: MotionAction)
        requires
            old(self)@.sound(),
        ensures
            ({
                let outcome = old(pointer).moved(
                    old(self)@,
                    constraint,
                    sights@,
                    window,
                    first_sights@,
                    grabs,
                    time_msec,
                );
                &&& final(self)@ == outcome.state
                &&& *final(pointer) == outcome.pointer
                &&& action == outcome.action
            }),
            final(self)@.sound(),
    {
        let mut confined: Option<SurfacePlace> = None;
        if let Some(held) = pointer.contents.surface {
            if let Some(constraint) = constraint {
                if constraint.active && constraint.is_for_pointer() {
                    match constraint.kind {
                        ConstraintKind::Locked => {
                            self.queue_pointer_redraw_throttled(pointer, time_msec);
                            return MotionAction::RelativeOnly(held);
                        },
                        ConstraintKind::Confined => {
                            confined = Some(held);
                        },
                    }
                }
            }
        }
        let under = self.contents_under(sights, window);
        if let Some(held) = confined {
            let stays = match under.surface {
                Some(surface) => surface.surface == held.surface,
                None => false,
            };
            if !stays {
                return MotionAction::RelativeOnly(held);
            }
        }
        pointer.contents = under;
        if self.config.focus_follow_mouse {
            self.update_keyboard_focus(grabs, first_sights, false);
        }
        self.queue_pointer_redraw_throttled(pointer, time_msec);
        MotionAction::Motion
    }

    /// The pointer was put somewhere.
    pub fn handle_pointer_motion_absolute(
        &mut self,
        pointer: &mut PointerState,
        sights: &LayerSights,
        window: Option<WindowHit>,
        first_sights: &LayerSights,
        grabs: Grabs,
    ) -> (action: MotionAction)
        requires
            old(self)@.sound(),
        ensures
            action == (if old(self)@.outputs.len() == 0 {
                MotionAction::Ignore
            } else {
                MotionAction::Motion
            }),
            old(self)@.outputs.len() == 0 ==> final(self)@ == old(self)@ && *final(pointer)
                == *old(pointer),
            old(self)@.outputs.len() > 0 ==> *final(pointer) == (PointerState {
                contents: old(self)@.contents_here(sights@, window),
                ..*old(pointer)
            }) && final(self)@ == (if old(self)@.settings.general.focus_follow_mouse {
                old(self)@.pointer_focused(grabs, first_sights@, false)
            } else {
                old(self)@
            }).pointer_redraw_asked(final(pointer).contents),
            final(self)@.sound(),
    {
        if self.outputs.len() == 0 {
            return MotionAction::Ignore;
        }
        pointer.contents = self.contents_under(sights, window);
        if self.config.focus_follow_mouse {
            self.update_keyboard_focus(grabs, first_sights, false);
        }
        self.queue_redraw_for_pointer_output(pointer);
        MotionAction::Motion
    }

    fn begin_grab(
        &self,
        button: Button,
        pressed: bool,
        modifiers: &ModifiersState,
        grabbed: bool,
        at: Option<WindowAtPointer>,
    ) -> (grab: Grab)
        ensures
            grab == self@.grab_begun(button, pressed, *modifiers, grabbed, at),
    {
        let main = self.config.main_key.matches(modifiers);
        if !pressed || grabbed {
            return Grab::Nothing;
        }
        match at {
            Some(at) => if button == Button::Left && main {
                match space::element_location(&self.elements, at.window) {
                    Some(from) => Grab::Move { window: at.window, from },
                    None => Grab::Nothing,
                }
            } else if button == Button::Right && (main || modifiers.alt) {
                let size = self.toplevel(at.window).geometry;
                Grab::Resize {
                    window: at.window,
                    edges: resize_edges_from_local_point(at.doubled_x, at.doubled_y, size),
                    from: Rectangle { loc: at.render_location, size },
                }
            } else {
                Grab::Nothing
            },
            None => Grab::Nothing,
        }
    }

    /// A button of the pointer was pressed or released: what it begins. `under` is what is at the
    /// pointer, `at` the window there, and `grabs` says who holds the pointer and the keyboard.
    pub fn handle_pointer_button(
        &mut self,
        pointer: &mut PointerState,
        button: Button,
        pressed: bool,
        modifiers: &ModifiersState,
        under: PointContents,
        at: Option<WindowAtPointer>,
        sights: &LayerSights,
        grabs: Grabs,
    ) -> (grab: Grab)
        requires
            old(self)@.sound(),
        ensures
            *final(pointer) == (PointerState { contents: under, ..*old(pointer) }),
            grab == old(self)@.grab_begun(button, pressed, *modifiers, grabs.pointer, at),
            ({
                let raised = old(self)@.grab_raised(grab);
                let focused = if pressed {
                    raised.pointer_focused(
                        (Grabs { pointer: grabs.pointer || grab != Grab::Nothing, ..grabs }),
                        sights@,
                        true,
                    )
                } else {
                    raised
                };
                final(self)@ == focused.pointer_redraw_asked(under)
            }),
            final(self)@.sound(),
    {
        let _ = pointer.update_pointer_contents(under);
        let grab = self.begin_grab(button, pressed, modifiers, grabs.pointer, at);
        let mut held = grabs.pointer;
        match grab {
            Grab::Nothing => {},
            Grab::Move { window, .. } => {
                held = true;
                self.raise_window_preserving_layer(window);
            },
            Grab::Resize { window, .. } => {
                held = true;
                self.raise_window_preserving_layer(window);
            },
        }
        if pressed {
            self.update_keyboard_focus(Grabs { pointer: held, ..grabs }, sights, true);
        }
        self.queue_redraw_for_pointer_output(pointer);
        grab
    }
}

/// What a wheel or a finger did in one direction: whether it moved at all, by how many parts of a
/// notch, where it counts them, and whether it said that it rests.
#[derive(Clone, Copy, Debug, PartialEq, Eq)]
pub struct AxisFacts {
    pub moves: bool,
    pub discrete: Option<i32>,
    pub rests: bool,
}

/// What a client is told of one direction: whether there is an amount, the parts of a notch, and
/// whether scrolling stops.
#[derive(Clone, Copy, Debug, PartialEq, Eq)]
pub struct AxisPart {
    pub scrolls: bool,
    pub discrete: Option<i32>,
    pub stops: bool,
}

/// What a client is told of scrolling.
#[derive(Clone, Copy, Debug, PartialEq, Eq)]
pub struct AxisFrame {
    pub horizontal: AxisPart,
    pub vertical: AxisPart,
}

impl AxisFacts {
    /// What a client is told. Notches count only where there is an amount, and only a finger that
    /// rests stops.
    pub open spec fn told(self, from_finger: bool) -> AxisPart {
        AxisPart {
            scrolls: self.moves,
            discrete: if self.moves {
                self.discrete
            } else {
                None
            },
            stops: from_finger && self.rests,
        }
    }

    fn tell(self, from_finger: bool) -> (part: AxisPart)
        ensures
            part == self.told(from_finger),
    {
        AxisPart {
            scrolls: self.moves,
            discrete: if self.moves {
                self.discrete
            } else {
                None
            },
            stops: from_finger && self.rests,
        }
    }
}

impl Raven {
    /// The user scrolls: what the client at the pointer is told. `under` is what is at the pointer.
    pub fn handle_pointer_axis(
        &mut self,
        pointer: &mut PointerState,
        under: PointContents,
        horizontal: AxisFacts,
        vertical: AxisFacts,
        from_finger: bool,
    ) -> (frame: AxisFrame)
        ensures
            *final(pointer) == (PointerState { contents: under, ..*old(pointer) }),
            final(self)@ == old(self)@.pointer_redraw_asked(under),
            frame.horizontal == horizontal.told(from_finger),
            frame.vertical == vertical.told(from_finger),
    {
        let _ = pointer.update_pointer_contents(under);
        self.queue_redraw_for_pointer_output(pointer);
        AxisFrame {
            horizontal: horizontal.tell(from_finger),
            vertical: vertical.tell(from_finger),
        }
    }
}

/// While the pointer is locked, nothing but the need for a frame changes.
pub proof fn locked_pointer_stays(
    pointer: PointerState,
    state: State,
    constraint: Option<Constraint>,
    sights: Sights,
    window: Option<WindowHit>,
    first_sights: Sights,
    grabs: Grabs,
    now: u32,
)
    requires
        pointer.locked(constraint),
    ensures
        ({
            let outcome = pointer.moved(
                state,
                constraint,
                sights,
                window,
                first_sights,
                grabs,
                now,
            );
            &&& outcome.pointer.contents == pointer.contents
            &&& outcome.state.keyboard_focus == state.keyboard_focus
            &&& outcome.state.elements == state.elements
        }),
{
}

/// Without the focus following the pointer, moving it changes no focus.
pub proof fn focus_follows_only_if_asked(
    pointer: PointerState,
    state: State,
    constraint: Option<Constraint>,
    sights: Sights,
    window: Option<WindowHit>,
    first_sights: Sights,
    grabs: Grabs,
    now: u32,
)
    requires
        !state.settings.general.focus_follow_mouse,
    ensures
        pointer.moved(
            state,
            constraint,
            sights,
            window,
            first_sights,
            grabs,
            now,
        ).state.keyboard_focus == state.keyboard_focus,
{
}

/// Giving the keyboard to what is at the pointer keeps the windows in order.
pub proof fn pointer_focus_stays_orderly(state: State, grabs: Grabs, sights: Sights, raise: bool)
    requires
        state.orderly(),
    ensures
        state.pointer_focused(grabs, sights, raise).orderly(),
{
    reveal(State::pointer_focused);
    fullscreen_laws::focusing_stays_orderly(
        state,
        layers::focus_under_point(sights.overlay, sights.top),
    );
    fullscreen_laws::focusing_stays_orderly(
        state,
        layers::focus_under_point(sights.bottom, sights.background),
    );
    fullscreen_laws::focusing_stays_orderly(state, state.pointer_window);
    if let Some(window) = state.pointer_window {
        fullscreen_laws::raising_stays_orderly(state, window);
        fullscreen_laws::focusing_stays_orderly(state.raised_in_layer(window), Some(window));
    }
}

} // verus!
