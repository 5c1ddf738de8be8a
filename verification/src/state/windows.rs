//! What is kept of each window, and the steps that change it.

use crate::geometry::{Point, Rectangle, Size};
use crate::state::lists;
use crate::state::lists::{
    add_entry, add_window_to_workspace_list, remove_entry, workspace_contains_window_entry,
    workspace_index_in_list, SurfaceId,
};
use crate::state::raven::{Raven, State};
use crate::state::space;
use crate::state::space::{element_location, map_element, unmap_elem};
use crate::state::toplevel::{Configure, OutputId, Toplevel, ToplevelState};
use std::collections::HashMap;
use vstd::prelude::*;

verus! {

broadcast use vstd::std_specs::hash::group_hash_axioms;

/// What is known of a toplevel.
pub open spec fn known(toplevels: Map<SurfaceId, Toplevel>, window: SurfaceId) -> Toplevel {
    if toplevels.contains_key(window) {
        toplevels[window]
    } else {
        Toplevel::unknown()
    }
}

/// The toplevels with those of `stack` marked active or not: `focused` is, the others are not.
pub open spec fn activated(
    toplevels: Map<SurfaceId, Toplevel>,
    stack: Seq<SurfaceId>,
    focused: Option<SurfaceId>,
) -> Map<SurfaceId, Toplevel>
    decreases stack.len(),
{
    if stack.len() == 0 {
        toplevels
    } else {
        let before = activated(toplevels, stack.drop_last(), focused);
        let toplevel = known(before, stack.last());
        before.insert(
            stack.last(),
            Toplevel {
                pending: ToplevelState {
                    activated: focused == Some(stack.last()),
                    ..toplevel.pending
                },
                ..toplevel
            },
        )
    }
}

impl State {
    /// The state with this known of a toplevel.
    pub open spec fn with_toplevel(self, window: SurfaceId, toplevel: Toplevel) -> State {
        State { toplevels: self.toplevels.insert(window, toplevel), ..self }
    }

    /// The state with a toplevel asked to take on another state.
    pub open spec fn with_pending(self, window: SurfaceId, pending: ToplevelState) -> State {
        self.with_toplevel(window, Toplevel { pending, ..self.toplevel(window) })
    }

    /// The state after a configure.
    pub open spec fn configured(self, window: SurfaceId) -> State {
        let toplevel = self.toplevel(window);
        State {
            configures: self.configures.push(
                Configure { surface: window, state: toplevel.pending },
            ),
            ..self.with_toplevel(
                window,
                Toplevel { configured: true, sent: toplevel.pending, ..toplevel },
            )
        }
    }

    /// Whether a client has not been told the state that it is asked to take on.
    pub open spec fn has_pending_changes(self, window: SurfaceId) -> bool {
        let toplevel = self.toplevel(window);
        !toplevel.configured || toplevel.pending != toplevel.sent
    }

    /// The state after a configure, where there is something to tell.
    pub open spec fn configured_if_changed(self, window: SurfaceId) -> State {
        if self.has_pending_changes(window) {
            self.configured(window)
        } else {
            self
        }
    }

    /// The rectangle that a window was given.
    pub open spec fn assigned_rect(self, window: SurfaceId) -> Option<Rectangle> {
        if self.assigned.contains_key(window) {
            Some(self.assigned[window])
        } else {
            None
        }
    }

    /// The state with a rectangle given to a window.
    pub open spec fn with_assigned(self, window: SurfaceId, rect: Rectangle) -> State {
        State { assigned: self.assigned.insert(window, rect), ..self }
    }

    /// The size that a client was told, as far as that is kept.
    pub open spec fn recorded_size(self, window: SurfaceId) -> Option<Size> {
        if self.reported.contains_key(window) {
            Some(self.reported[window])
        } else {
            None
        }
    }

    /// The size that the client committed, or else the one that it was told.
    pub open spec fn reported_size(self, window: SurfaceId) -> Option<Size> {
        match self.toplevel(window).committed_size {
            Some(size) => Some(size),
            None => self.recorded_size(window),
        }
    }

    /// The size that a configure will ask for: the pending one, or else `fallback`.
    pub open spec fn requested_size(self, window: SurfaceId, fallback: Option<Size>) -> Option<
        Size,
    > {
        match self.toplevel(window).pending.size {
            Some(size) => Some(size),
            None => fallback,
        }
    }

    /// The state with the size kept that a configure will ask for.
    pub open spec fn with_size_synced(self, window: SurfaceId, fallback: Option<Size>) -> State {
        match self.requested_size(window, fallback) {
            Some(size) => State { reported: self.reported.insert(window, size), ..self },
            None => self,
        }
    }

    /// Where a window is on the screen, with its size.
    pub open spec fn shown_at(self, window: SurfaceId) -> Option<Rectangle> {
        match space::place_of(self.elements, window) {
            Some(loc) => Some(Rectangle { loc, size: self.toplevel(window).geometry }),
            None => None,
        }
    }

    /// The size that a window is taken to have.
    pub open spec fn fallback_size(self, window: SurfaceId) -> Size {
        match self.assigned_rect(window) {
            Some(rect) => rect.size,
            None => self.toplevel(window).geometry,
        }
    }

    /// The state with a window on top of the screen, and active if so asked.
    pub open spec fn topped(self, window: SurfaceId, location: Point, activate: bool) -> State {
        let elements = space::topped(self.elements, window, location);
        State {
            elements,
            toplevels: if activate {
                activated(self.toplevels, space::stack(elements), Some(window))
            } else {
                self.toplevels
            },
            ..self
        }
    }

    /// The state with a window raised and active, where it is on the screen.
    pub open spec fn raised(self, window: SurfaceId) -> State {
        match space::place_of(self.elements, window) {
            Some(location) => self.topped(window, location, true),
            None => self,
        }
    }

    /// The state with a window put into a rectangle.
    pub open spec fn mapped_to(self, window: SurfaceId, rect: Rectangle, activate: bool) -> State {
        self.with_assigned(window, rect).topped(window, rect.loc, activate)
    }

    /// The state with a window put at a place, with the size it is taken to have.
    pub open spec fn mapped_at(self, window: SurfaceId, loc: Point, activate: bool) -> State {
        self.mapped_to(window, Rectangle { loc, size: self.fallback_size(window) }, activate)
    }

    /// The state with a window off the screen.
    pub open spec fn unmapped_window(self, window: SurfaceId) -> State {
        State {
            elements: space::lifted(self.elements, window),
            assigned: self.assigned.remove(window),
            reported: self.reported.remove(window),
            ..self
        }
    }

    /// The state with a window floating or not.
    pub open spec fn with_floating(self, window: SurfaceId, floating: bool) -> State {
        State {
            floating: if floating {
                lists::with(self.floating, window)
            } else {
                lists::without(self.floating, window)
            },
            ..self
        }
    }

    /// Whether a window floats.
    pub open spec fn floats(self, window: SurfaceId) -> bool {
        self.floating.contains(window)
    }

    /// The first output.
    pub open spec fn first_output(self) -> Option<OutputId> {
        if self.outputs.len() == 0 {
            None
        } else {
            Some(self.outputs[0].id)
        }
    }

    /// The first output that a window overlaps, while it is on the screen.
    pub open spec fn overlapped(self, window: SurfaceId) -> Option<OutputId> {
        if self.on_screen(window) {
            self.toplevel(window).overlaps
        } else {
            None
        }
    }

    /// The state without anything kept of how a surface comes onto the screen.
    pub open spec fn forgotten(self, surface: SurfaceId) -> State {
        State {
            pending_fullscreen: self.pending_fullscreen.remove(surface),
            transitions: self.transitions.remove(surface),
            restores: self.restores.remove(surface),
            maximized: self.maximized.remove(surface),
            owners: disowned(self.owners, surface),
            assigned: self.assigned.remove(surface),
            reported: self.reported.remove(surface),
            pending_maximized: self.pending_maximized.remove(surface),
            initial_configure: self.initial_configure.remove(surface),
            configure_idle: self.configure_idle.remove(surface),
            unmapped_marks: self.unmapped_marks.remove(surface),
            ..self
        }
    }

    /// The state without a window on any workspace.
    pub open spec fn without_window(self, window: SurfaceId) -> State {
        State {
            mapped: lists::removed(self.mapped, window),
            unmapped: lists::removed(self.unmapped, window),
            floating: lists::without(self.floating, window),
            ..self.forgotten(window)
        }
    }

    /// The state with a window among the mapped, on the workspace where it waited, or else where it
    /// is, or else on the current one.
    pub open spec fn promoted(self, window: SurfaceId) -> State {
        let index = match lists::index_of(self.unmapped, window) {
            Some(index) => index,
            None => match lists::index_of(self.mapped, window) {
                Some(index) => index,
                None => self.current,
            },
        };
        State {
            mapped: lists::added(self.mapped, index as int, window),
            unmapped: lists::removed(self.unmapped, window),
            ..self
        }
    }

    /// The state with a window among the unmapped, on the workspace where it was mapped, or else
    /// where it is, or else on the current one.
    pub open spec fn demoted(self, window: SurfaceId) -> State {
        let index = match lists::index_of(self.mapped, window) {
            Some(index) => index,
            None => match lists::index_of(self.unmapped, window) {
                Some(index) => index,
                None => self.current,
            },
        };
        State {
            mapped: lists::removed(self.mapped, window),
            unmapped: lists::added(self.unmapped, index as int, window),
            ..self
        }
    }
}

/// The owners without a surface.
pub open spec fn disowned(
    owners: Seq<Option<crate::state::toplevel::FullscreenSlot>>,
    surface: SurfaceId,
) -> Seq<Option<crate::state::toplevel::FullscreenSlot>> {
    Seq::new(
        owners.len(),
        |i: int|
            match owners[i] {
                Some(slot) => if slot.surface == surface {
                    None
                } else {
                    Some(slot)
                },
                None => None,
            },
    )
}

fn known_toplevel(toplevels: &HashMap<SurfaceId, Toplevel>, window: SurfaceId) -> (toplevel:
    Toplevel)
    ensures
        toplevel == known(toplevels@, window),
{
    match toplevels.get(&window) {
        Some(toplevel) => *toplevel,
        None => Toplevel::new(),
    }
}

impl Raven {
    /// What is known of a toplevel.
    pub fn toplevel(&self, window: SurfaceId) -> (toplevel: Toplevel)
        ensures
            toplevel == self@.toplevel(window),
    {
        known_toplevel(&self.toplevels, window)
    }

    /// Keeps what is known of a toplevel.
    pub fn set_toplevel(&mut self, window: SurfaceId, toplevel: Toplevel)
        ensures
            final(self)@ == old(self)@.with_toplevel(window, toplevel),
    {
        self.toplevels.insert(window, toplevel);
    }

    /// Asks a toplevel to take on another state.
    pub fn set_pending_state(&mut self, window: SurfaceId, pending: ToplevelState)
        ensures
            final(self)@ == old(self)@.with_pending(window, pending),
    {
        let toplevel = self.toplevel(window);
        self.set_toplevel(window, Toplevel { pending, ..toplevel });
    }

    /// Sends a configure.
    pub fn send_configure(&mut self, window: SurfaceId)
        ensures
            final(self)@ == old(self)@.configured(window),
    {
        let toplevel = self.toplevel(window);
        self.set_toplevel(
            window,
            Toplevel { configured: true, sent: toplevel.pending, ..toplevel },
        );
        self.configures.push(Configure { surface: window, state: toplevel.pending });
    }

    /// Sends a configure where there is something to tell; whether it did.
    pub fn send_pending_configure(&mut self, window: SurfaceId) -> (sent: bool)
        ensures
            sent == old(self)@.has_pending_changes(window),
            final(self)@ == old(self)@.configured_if_changed(window),
    {
        let toplevel = self.toplevel(window);
        if !toplevel.configured || toplevel.pending != toplevel.sent {
            self.send_configure(window);
            true
        } else {
            false
        }
    }

    /// The rectangle that a window was given.
    pub fn assigned_rect_for_window(&self, window: SurfaceId) -> (rect: Option<Rectangle>)
        ensures
            rect == self@.assigned_rect(window),
    {
        match self.assigned_rects.get(&window) {
            Some(rect) => Some(*rect),
            None => None,
        }
    }

    /// Gives a window a rectangle.
    pub fn record_assigned_rect_for_window(&mut self, window: SurfaceId, rect: Rectangle)
        ensures
            final(self)@ == old(self)@.with_assigned(window, rect),
    {
        self.assigned_rects.insert(window, rect);
    }

    /// Takes a window's rectangle away.
    pub fn clear_assigned_rect_for_surface(&mut self, surface: SurfaceId)
        ensures
            final(self)@ == (State {
                assigned: old(self)@.assigned.remove(surface),
                ..old(self)@
            }),
    {
        self.assigned_rects.remove(&surface);
    }

    /// The size that a client was told, as far as that is kept.
    pub fn reported_size_for_surface(&self, surface: SurfaceId) -> (size: Option<Size>)
        ensures
            size == self@.recorded_size(surface),
    {
        match self.reported_sizes.get(&surface) {
            Some(size) => Some(*size),
            None => None,
        }
    }

    /// The size that the client committed.
    pub fn committed_reported_size_for_window(&self, window: SurfaceId) -> (size: Option<Size>)
        ensures
            size == self@.toplevel(window).committed_size,
    {
        self.toplevel(window).committed_size
    }

    /// The size that the client committed, or else the one that it was told.
    pub fn reported_size_for_window(&self, window: SurfaceId) -> (size: Option<Size>)
        ensures
            size == self@.reported_size(window),
    {
        match self.committed_reported_size_for_window(window) {
            Some(size) => Some(size),
            None => self.reported_size_for_surface(window),
        }
    }

    /// Keeps the size that a client is told.
    pub fn record_reported_size_for_window(&mut self, window: SurfaceId, size: Size)
        ensures
            final(self)@ == (State {
                reported: old(self)@.reported.insert(window, size),
                ..old(self)@
            }),
    {
        self.reported_sizes.insert(window, size);
    }

    /// Forgets the size that a client was told.
    pub fn clear_reported_size_for_surface(&mut self, surface: SurfaceId)
        ensures
            final(self)@ == (State {
                reported: old(self)@.reported.remove(surface),
                ..old(self)@
            }),
    {
        self.reported_sizes.remove(&surface);
    }

    /// Keeps the size that a configure will ask for; the size that then counts as told.
    pub fn sync_reported_size_from_pending_state(
        &mut self,
        window: SurfaceId,
        fallback_size: Option<Size>,
    ) -> (size: Option<Size>)
        ensures
            final(self)@ == old(self)@.with_size_synced(window, fallback_size),
            size == match final(self)@.reported_size(window) {
                Some(size) => Some(size),
                None => old(self)@.requested_size(window, fallback_size),
            },
    {
        let requested_size = match self.toplevel(window).pending.size {
            Some(size) => Some(size),
            None => fallback_size,
        };
        if let Some(size) = requested_size {
            self.record_reported_size_for_window(window, size);
        }
        match self.reported_size_for_window(window) {
            Some(size) => Some(size),
            None => requested_size,
        }
    }

    /// Where a window is on the screen, with its size.
    pub fn element_geometry(&self, window: SurfaceId) -> (rect: Option<Rectangle>)
        ensures
            rect == self@.shown_at(window),
    {
        match element_location(&self.elements, window) {
            Some(loc) => Some(Rectangle { loc, size: self.toplevel(window).geometry }),
            None => None,
        }
    }

    /// The size that a window is taken to have.
    pub fn fallback_window_size(&self, window: SurfaceId) -> (size: Size)
        ensures
            size == self@.fallback_size(window),
    {
        match self.assigned_rect_for_window(window) {
            Some(rect) => rect.size,
            None => self.toplevel(window).geometry,
        }
    }

    /// Marks the windows on the screen: `focused` is active, the others are not.
    pub fn mark_activated(&mut self, focused: Option<SurfaceId>)
        ensures
            final(self)@ == (State {
                toplevels: activated(
                    old(self)@.toplevels,
                    space::stack(old(self)@.elements),
                    focused,
                ),
                ..old(self)@
            }),
    {
        let ghost stack = space::stack(self@.elements);
        let ghost before = self@;
        let mut index: usize = 0;
        assert(stack.take(0) =~= seq![]);
        while index < self.elements.len()
            invariant
                index <= self.elements.len(),
                stack == space::stack(before.elements),
                self@ == (State {
                    toplevels: activated(before.toplevels, stack.take(index as int), focused),
                    ..before
                }),
            decreases self.elements.len() - index,
        {
            let window = self.elements[index].window;
            assert(stack.take(index + 1).drop_last() =~= stack.take(index as int));
            assert(stack.take(index + 1).last() == window);
            let toplevel = self.toplevel(window);
            let active = match focused {
                Some(focused) => focused == window,
                None => false,
            };
            self.set_toplevel(
                window,
                Toplevel {
                    pending: ToplevelState { activated: active, ..toplevel.pending },
                    ..toplevel
                },
            );
            index = index + 1;
        }
        assert(stack.take(stack.len() as int) =~= stack);
    }

    /// Puts a window on top of the screen, and makes it active if so asked.
    pub fn map_on_top(&mut self, window: SurfaceId, location: Point, activate: bool)
        ensures
            final(self)@ == old(self)@.topped(window, location, activate),
    {
        map_element(&mut self.elements, window, location);
        if activate {
            self.mark_activated(Some(window));
        }
    }

    /// Raises a window and makes it active, where it is on the screen.
    pub fn raise_element(&mut self, window: SurfaceId)
        ensures
            final(self)@ == old(self)@.raised(window),
    {
        if let Some(location) = element_location(&self.elements, window) {
            self.map_on_top(window, location, true);
        }
    }

    /// Puts a window into a rectangle.
    pub fn map_window_to_rect(&mut self, window: SurfaceId, rect: Rectangle, activate: bool)
        ensures
            final(self)@ == old(self)@.mapped_to(window, rect, activate),
    {
        self.record_assigned_rect_for_window(window, rect);
        self.map_on_top(window, rect.loc, activate);
    }

    /// Puts a window at a place, with the size it is taken to have.
    pub fn map_window_to_location(&mut self, window: SurfaceId, loc: Point, activate: bool)
        ensures
            final(self)@ == old(self)@.mapped_at(window, loc, activate),
    {
        let size = self.fallback_window_size(window);
        self.map_window_to_rect(window, Rectangle { loc, size }, activate);
    }

    /// Takes a window off the screen.
    pub fn unmap_window(&mut self, window: SurfaceId)
        ensures
            final(self)@ == old(self)@.unmapped_window(window),
    {
        unmap_elem(&mut self.elements, window);
        self.clear_assigned_rect_for_surface(window);
        self.clear_reported_size_for_surface(window);
    }

    /// Whether a window is on the screen.
    pub fn is_window_mapped(&self, window: SurfaceId) -> (result: bool)
        ensures
            result == self@.on_screen(window),
    {
        element_location(&self.elements, window).is_some()
    }

    /// Whether a window's surface and its client are alive.
    pub fn window_has_live_client(&self, window: SurfaceId) -> (result: bool)
        ensures
            result == self@.toplevel(window).live,
    {
        self.toplevel(window).live
    }

    /// Whether a window's root surface has a buffer.
    pub fn window_root_surface_has_buffer(&self, window: SurfaceId) -> (result: bool)
        ensures
            result == self@.toplevel(window).has_buffer,
    {
        self.toplevel(window).has_buffer
    }

    /// Makes a window float, or not.
    pub fn set_window_floating(&mut self, window: SurfaceId, floating: bool)
        ensures
            final(self)@ == old(self)@.with_floating(window, floating),
            final(self)@.floats(window) == floating,
    {
        proof {
            lists::without_leaves(self@.floating, window);
            if !self@.floating.contains(window) {
                assert(self@.floating.push(window).last() == window);
            }
        }
        if floating {
            add_entry(&mut self.floating_windows, window);
        } else {
            remove_entry(&mut self.floating_windows, window);
        }
    }

    /// Whether a window floats.
    pub fn is_window_floating(&self, window: SurfaceId) -> (result: bool)
        ensures
            result == self@.floats(window),
    {
        workspace_contains_window_entry(&self.floating_windows, window)
    }

    /// The first output.
    pub fn first_output(&self) -> (output: Option<OutputId>)
        ensures
            output == self@.first_output(),
    {
        if self.outputs.len() == 0 {
            None
        } else {
            Some(self.outputs[0].id)
        }
    }

    /// The first output that a window overlaps, while it is on the screen.
    pub fn output_for_element(&self, window: SurfaceId) -> (output: Option<OutputId>)
        ensures
            output == self@.overlapped(window),
    {
        if self.is_window_mapped(window) {
            self.toplevel(window).overlaps
        } else {
            None
        }
    }

    /// The workspace of a mapped window.
    pub fn workspace_index_for_mapped_window(&self, window: SurfaceId) -> (index: Option<usize>)
        ensures
            index == lists::index_of(self@.mapped, window),
    {
        workspace_index_in_list(&self.workspaces, window)
    }

    /// The workspace of a window that waits for its first buffer.
    pub fn workspace_index_for_unmapped_window(&self, window: SurfaceId) -> (index: Option<usize>)
        ensures
            index == lists::index_of(self@.unmapped, window),
    {
        workspace_index_in_list(&self.unmapped_workspaces, window)
    }

    /// The workspace of a window.
    pub fn workspace_index_for_window(&self, window: SurfaceId) -> (index: Option<usize>)
        ensures
            index == self@.workspace_of(window),
    {
        match self.workspace_index_for_mapped_window(window) {
            Some(index) => Some(index),
            None => self.workspace_index_for_unmapped_window(window),
        }
    }

    /// Whether a workspace holds a window, mapped or not.
    pub fn workspace_contains_window(&self, workspace_index: usize, window: SurfaceId) -> (result:
        bool)
        ensures
            result == self@.workspace_holds(workspace_index as int, window),
    {
        (workspace_index < self.workspaces.len() && workspace_contains_window_entry(
            &self.workspaces[workspace_index],
            window,
        )) || (workspace_index < self.unmapped_workspaces.len() && workspace_contains_window_entry(
            &self.unmapped_workspaces[workspace_index],
            window,
        ))
    }

    /// The window that a surface is the root of.
    pub fn window_for_surface(&self, surface: SurfaceId) -> (window: Option<SurfaceId>)
        requires
            self@.sound(),
        ensures
            window == (if self@.has_window(surface) {
                Some(surface)
            } else {
                None
            }),
    {
        proof {
            lists::index_of_finds(self@.mapped, surface);
            lists::index_of_finds(self@.unmapped, surface);
        }
        if self.workspace_index_for_window(surface).is_some() || self.is_window_mapped(surface) {
            Some(surface)
        } else {
            None
        }
    }

    /// Puts a window among the mapped of the current workspace.
    pub fn add_window_to_current_workspace(&mut self, window: SurfaceId)
        ensures
            final(self)@ == (State {
                mapped: lists::added(old(self)@.mapped, old(self)@.current as int, window),
                ..old(self)@
            }),
    {
        self.add_window_to_workspace(self.current_workspace, window);
    }

    /// Puts a window among the mapped of a workspace, where there is such a workspace.
    pub fn add_window_to_workspace(&mut self, workspace_index: usize, window: SurfaceId)
        ensures
            final(self)@ == (State {
                mapped: lists::added(old(self)@.mapped, workspace_index as int, window),
                ..old(self)@
            }),
    {
        let _ = add_window_to_workspace_list(&mut self.workspaces, workspace_index, window);
    }

    /// Puts a window among the unmapped of a workspace, where there is such a workspace.
    pub fn add_unmapped_window_to_workspace(&mut self, workspace_index: usize, window: SurfaceId)
        ensures
            final(self)@ == (State {
                unmapped: lists::added(old(self)@.unmapped, workspace_index as int, window),
                ..old(self)@
            }),
    {
        let _ = add_window_to_workspace_list(
            &mut self.unmapped_workspaces,
            workspace_index,
            window,
        );
    }
}

} // verus!
