//! Toplevels: what is known of a window's surface, and the state that its client is told.

use crate::geometry::{Rectangle, Size};
use crate::state::lists::SurfaceId;
use vstd::prelude::*;

verus! {

/// The number that an output is known by.
pub type OutputId = u64;

/// Who draws the decorations of a window.
#[derive(Clone, Copy, Debug, PartialEq, Eq, Structural)]
pub enum DecorationMode {
    ClientSide,
    ServerSide,
}

/// The state that a client is asked to take on.
#[derive(Clone, Copy, Debug, PartialEq, Eq, Structural)]
pub struct ToplevelState {
    pub fullscreen: bool,
    pub maximized: bool,
    pub activated: bool,
    pub resizing: bool,
    pub tiled_left: bool,
    pub tiled_right: bool,
    pub tiled_top: bool,
    pub tiled_bottom: bool,
    pub size: Option<Size>,
    pub bounds: Option<Size>,
    pub decoration_mode: Option<DecorationMode>,
}

impl ToplevelState {
    /// The state of a new toplevel.
    pub open spec fn blank() -> ToplevelState {
        ToplevelState {
            fullscreen: false,
            maximized: false,
            activated: false,
            resizing: false,
            tiled_left: false,
            tiled_right: false,
            tiled_top: false,
            tiled_bottom: false,
            size: None,
            bounds: None,
            decoration_mode: None,
        }
    }

    /// The state of a new toplevel.
    pub fn new() -> (state: ToplevelState)
        ensures
            state == ToplevelState::blank(),
    {
        ToplevelState {
            fullscreen: false,
            maximized: false,
            activated: false,
            resizing: false,
            tiled_left: false,
            tiled_right: false,
            tiled_top: false,
            tiled_bottom: false,
            size: None,
            bounds: None,
            decoration_mode: None,
        }
    }

    /// This state with all four edges tiled, or none.
    pub open spec fn tiled(self, tiled: bool) -> ToplevelState {
        ToplevelState {
            tiled_left: tiled,
            tiled_right: tiled,
            tiled_top: tiled,
            tiled_bottom: tiled,
            ..self
        }
    }

    /// This state with all four edges tiled, or none.
    pub fn set_tiled_state(self, tiled: bool) -> (state: ToplevelState)
        ensures
            state == self.tiled(tiled),
    {
        ToplevelState {
            tiled_left: tiled,
            tiled_right: tiled,
            tiled_top: tiled,
            tiled_bottom: tiled,
            ..self
        }
    }
}

/// What is known of a toplevel: what its client committed, what it is asked to take on and what
/// it was last told.
#[derive(Clone, Copy, Debug, PartialEq, Eq, Structural)]
pub struct Toplevel {
    /// Whether the surface and its client are alive.
    pub live: bool,
    /// Whether the root surface has a buffer.
    pub has_buffer: bool,
    /// Whether the size of that buffer is known.
    pub has_buffer_size: bool,
    /// The size of the window's geometry.
    pub geometry: Size,
    /// The size of the root surface.
    pub surface_size: Option<Size>,
    /// The size in the state that the client last committed.
    pub committed_size: Option<Size>,
    /// Whether the state that the client last committed is maximized.
    pub committed_maximized: bool,
    pub min_size: Size,
    pub max_size: Size,
    pub parent: Option<SurfaceId>,
    /// The first output that the window overlaps while it is on the screen.
    pub overlaps: Option<OutputId>,
    /// Whether a first configure was sent.
    pub configured: bool,
    /// The state that the client is asked to take on.
    pub pending: ToplevelState,
    /// The state that the last configure told.
    pub sent: ToplevelState,
}

impl Toplevel {
    /// A toplevel of which nothing is known.
    pub open spec fn unknown() -> Toplevel {
        Toplevel {
            live: false,
            has_buffer: false,
            has_buffer_size: false,
            geometry: Size { w: 0, h: 0 },
            surface_size: None,
            committed_size: None,
            committed_maximized: false,
            min_size: Size { w: 0, h: 0 },
            max_size: Size { w: 0, h: 0 },
            parent: None,
            overlaps: None,
            configured: false,
            pending: ToplevelState::blank(),
            sent: ToplevelState::blank(),
        }
    }

    /// A toplevel of which nothing is known.
    pub fn new() -> (toplevel: Toplevel)
        ensures
            toplevel == Toplevel::unknown(),
    {
        Toplevel {
            live: false,
            has_buffer: false,
            has_buffer_size: false,
            geometry: Size { w: 0, h: 0 },
            surface_size: None,
            committed_size: None,
            committed_maximized: false,
            min_size: Size { w: 0, h: 0 },
            max_size: Size { w: 0, h: 0 },
            parent: None,
            overlaps: None,
            configured: false,
            pending: ToplevelState::new(),
            sent: ToplevelState::new(),
        }
    }

    /// The size that the client fixed in both directions, by equal bounds.
    pub open spec fn fixed_size(self) -> Option<Size> {
        if self.min_size.w > 0 && self.min_size.w == self.max_size.w && self.min_size.h > 0
            && self.min_size.h == self.max_size.h {
            Some(self.min_size)
        } else {
            None
        }
    }

    /// The size that the client fixed in both directions, by equal bounds.
    pub fn fixed_hint_size(&self) -> (size: Option<Size>)
        ensures
            size == self.fixed_size(),
    {
        if self.min_size.w > 0 && self.min_size.w == self.max_size.w && self.min_size.h > 0
            && self.min_size.h == self.max_size.h {
            Some(self.min_size)
        } else {
            None
        }
    }
}

/// A configure that goes to a client.
#[derive(Clone, Copy, Debug, PartialEq, Eq, Structural)]
pub struct Configure {
    pub surface: SurfaceId,
    pub state: ToplevelState,
}

/// Where a workspace's fullscreen window is shown.
#[derive(Clone, Copy, Debug, PartialEq, Eq, Structural)]
pub struct FullscreenSlot {
    pub surface: SurfaceId,
    pub output: Option<OutputId>,
}

/// What a window goes back to when it leaves fullscreen.
#[derive(Clone, Copy, Debug, PartialEq, Eq, Structural)]
pub struct FullscreenRestoreState {
    pub rect: Option<Rectangle>,
    pub maximized: bool,
}

/// A change of fullscreen that waits for the client to commit the new size.
#[derive(Clone, Copy, Debug, PartialEq, Eq, Structural)]
pub enum PendingFullscreenTransition {
    Enter { requested_output: Option<OutputId> },
    Exit,
}

/// Whether a window has the screen for itself, and how.
#[derive(Clone, Copy, Debug, PartialEq, Eq, Structural)]
pub enum WindowFullscreenMode {
    Shared,
    Maximized,
    Fullscreen,
}

} // verus!
