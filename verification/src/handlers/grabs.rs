//! Requests of clients that depend on where things are: dragging a window, and placing popups and
//! layer surfaces.

use crate::geometry::{Point, Rectangle};
use crate::state::lists::SurfaceId;
use crate::state::raven::{Raven, State};
use crate::state::space;
use crate::state::toplevel::{OutputId, ToplevelState};
use vstd::prelude::*;

verus! {

/// The click that a client refers to.
#[derive(Clone, Copy, Debug, PartialEq, Eq, Structural)]
pub struct ClickFacts {
    /// Whether the pointer is held by the click with the serial number that the client names.
    pub holds_serial: bool,
    /// Whether it is known how that click began.
    pub has_start: bool,
    /// Whether the click began on a surface of the same client, if it began on one.
    pub on_same_client: Option<bool>,
}

impl ClickFacts {
    /// Whether the click lets the client drag its window.
    pub open spec fn allows(self) -> bool {
        self.holds_serial && self.has_start && self.on_same_client == Some(true)
    }
}

/// Whether a click lets the client drag its window.
pub fn check_grab(click: ClickFacts) -> (result: bool)
    ensures
        result == click.allows(),
{
    if !click.holds_serial || !click.has_start {
        return false;
    }
    match click.on_same_client {
        Some(same) => same,
        None => false,
    }
}

/// The buffer that a commit waits for.
#[derive(Clone, Copy, Debug, PartialEq, Eq, Structural)]
pub enum Blocker {
    /// The point in time that the client names.
    AcquirePoint,
    /// The buffer itself.
    Buffer,
}

/// What a commit with a buffer in shared memory of the graphics card waits for: the point in time
/// that the client names, or else the buffer itself. `acquire_failed` says that the first could not
/// be waited for.
pub fn blocker_to_try(has_dmabuf: bool, has_acquire_point: bool, acquire_failed: bool) -> (blocker: Option<
    Blocker,
>)
    ensures
        blocker == (if !has_dmabuf {
            None
        } else if has_acquire_point && !acquire_failed {
            Some(Blocker::AcquirePoint)
        } else {
            Some(Blocker::Buffer)
        }),
{
    if !has_dmabuf {
        None
    } else if has_acquire_point && !acquire_failed {
        Some(Blocker::AcquirePoint)
    } else {
        Some(Blocker::Buffer)
    }
}

impl State {
    /// The state with a window told that it is being resized.
    pub open spec fn resize_begun(self, surface: SurfaceId) -> State {
        self.with_pending(
            surface,
            ToplevelState { resizing: true, ..self.toplevel(surface).pending },
        ).configured_if_changed(surface)
    }

    /// The rectangle that a popup must stay in, relative to its parent: the first output. `offset` is
    /// the place of the parent within its window.
    pub open spec fn popup_bounds(self, root: SurfaceId, origin: Point, offset: Point) -> Option<
        Rectangle,
    > {
        if !self.has_window(root) || self.outputs.len() == 0 {
            None
        } else {
            match self.outputs[0].geometry {
                Some(output) => {
                    let loc = match space::place_of(self.elements, root) {
                        Some(loc) => loc,
                        None => origin,
                    };
                    Some(
                        Rectangle {
                            loc: Point {
                                x: output.loc.x.wrapping_sub(offset.x).wrapping_sub(loc.x),
                                y: output.loc.y.wrapping_sub(offset.y).wrapping_sub(loc.y),
                            },
                            size: output.size,
                        },
                    )
                },
                None => None,
            }
        }
    }
}

impl Raven {
    /// A client asks to have its window dragged about: where the window is then.
    pub fn move_request(&self, surface: SurfaceId, click: ClickFacts) -> (from: Option<Point>)
        requires
            click.allows() ==> self@.on_screen(surface),
        ensures
            from == (if click.allows() {
                space::place_of(self@.elements, surface)
            } else {
                None
            }),
    {
        if !check_grab(click) {
            return None;
        }
        space::element_location(&self.elements, surface)
    }

    /// A client asks to have the edges of its window dragged: where the window is then. The window is
    /// told so.
    pub fn resize_request(&mut self, surface: SurfaceId, click: ClickFacts) -> (from: Option<Rectangle>)
        requires
            click.allows() ==> old(self)@.on_screen(surface),
        ensures
            from == (if click.allows() {
                old(self)@.shown_at(surface)
            } else {
                None
            }),
            final(self)@ == (if click.allows() {
                old(self)@.resize_begun(surface)
            } else {
                old(self)@
            }),
    {
        if !check_grab(click) {
            return None;
        }
        let from = self.element_geometry(surface);
        let pending = self.toplevel(surface).pending;
        self.set_pending_state(surface, ToplevelState { resizing: true, ..pending });
        let _ = self.send_pending_configure(surface);
        from
    }

    /// The rectangle that a popup must stay in, relative to its parent. `root` is the surface of its
    /// window, `origin` the place of the window's geometry within that surface, and `offset` the place
    /// of the parent within the window.
    pub fn unconstrain_popup(&self, root: SurfaceId, origin: Point, offset: Point) -> (bounds: Option<
        Rectangle,
    >)
        requires
            self@.sound(),
        ensures
            bounds == self@.popup_bounds(root, origin, offset),
    {
        if self.window_for_surface(root).is_none() || self.outputs.len() == 0 {
            return None;
        }
        match self.outputs[0].geometry {
            Some(output) => {
                let loc = match space::element_location(&self.elements, root) {
                    Some(loc) => loc,
                    None => origin,
                };
                Some(
                    Rectangle {
                        loc: Point {
                            x: output.loc.x.wrapping_sub(offset.x).wrapping_sub(loc.x),
                            y: output.loc.y.wrapping_sub(offset.y).wrapping_sub(loc.y),
                        },
                        size: output.size,
                    },
                )
            },
            None => None,
        }
    }

    /// The output of a new layer surface: the one that it asks for, or else the first.
    pub fn output_for_layer_surface(&self, requested: Option<OutputId>) -> (output: Option<OutputId>)
        ensures
            output == (match requested {
                Some(output) => Some(output),
                None => self@.first_output(),
            }),
    {
        match requested {
            Some(output) => Some(output),
            None => self.first_output(),
        }
    }
}

} // verus!
