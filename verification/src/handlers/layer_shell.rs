//! Layer surfaces: panels, launchers and the like, which are not windows.

use crate::state::lists::SurfaceId;
use vstd::prelude::*;

verus! {

/// The four layers, from the bottom to the top.
#[derive(Clone, Copy, Debug, PartialEq, Eq, Structural)]
pub enum Layer {
    Background,
    Bottom,
    Top,
    Overlay,
}

/// What is known of a layer surface when it is committed.
#[derive(Clone, Copy, Debug, PartialEq, Eq, Structural)]
pub struct LayerCommit {
    pub surface: SurfaceId,
    pub layer: Layer,
    pub can_receive_keyboard_focus: bool,
    /// Whether the pointer is on the surface, and both it and its output have a place.
    pub pointer_over: bool,
    pub initial_configure_sent: bool,
}

/// What follows from the commit of a layer surface.
#[derive(Clone, Copy, Debug, PartialEq, Eq, Structural)]
pub struct LayerAction {
    pub send_configure: bool,
    pub focus: Option<SurfaceId>,
    pub relayout: bool,
}

/// Whether a layer is above the windows.
pub open spec fn above_windows(layer: Layer) -> bool {
    layer == Layer::Overlay || layer == Layer::Top
}

/// What follows from a commit: a layer surface has the screen laid out again and gets its first
/// configure; one above the windows with the pointer on it gets the keyboard.
pub open spec fn layer_committed(
    commit: Option<LayerCommit>,
    focus: Option<SurfaceId>,
) -> LayerAction {
    match commit {
        None => LayerAction { send_configure: false, focus: None, relayout: false },
        Some(commit) => LayerAction {
            send_configure: !commit.initial_configure_sent,
            focus: if above_windows(commit.layer) && commit.can_receive_keyboard_focus
                && commit.pointer_over && focus != Some(commit.surface) {
                Some(commit.surface)
            } else {
                None
            },
            relayout: true,
        },
    }
}

/// What follows from a commit; `commit` is there where the surface is a layer surface.
pub fn handle_commit(commit: Option<LayerCommit>, current_keyboard_focus: Option<SurfaceId>) -> (action:
    LayerAction)
    ensures
        action == layer_committed(commit, current_keyboard_focus),
{
    match commit {
        None => LayerAction { send_configure: false, focus: None, relayout: false },
        Some(commit) => {
            let focused = match current_keyboard_focus {
                Some(surface) => surface == commit.surface,
                None => false,
            };
            let above = commit.layer == Layer::Overlay || commit.layer == Layer::Top;
            let focus = if above && commit.can_receive_keyboard_focus && commit.pointer_over
                && !focused {
                Some(commit.surface)
            } else {
                None
            };
            LayerAction { send_configure: !commit.initial_configure_sent, focus, relayout: true }
        },
    }
}

} // verus!
