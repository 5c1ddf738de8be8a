//! Fullscreen and maximized windows: which window has a workspace for itself, what its client is
//! told, and what waits until the client has followed.

use crate::geometry::{Rectangle, Size};
use crate::state::lists::SurfaceId;
use crate::state::raven::{Raven, State};
use crate::state::toplevel::{
    FullscreenRestoreState, FullscreenSlot, OutputId, PendingFullscreenTransition,
    ToplevelState,
};
use crate::state::windows;
use vstd::prelude::*;

verus! {

broadcast use vstd::std_specs::hash::group_hash_axioms;

/// The first workspace at or after `from` whose fullscreen a surface has.
pub open spec fn owner_from(
    owners: Seq<Option<FullscreenSlot>>,
    surface: SurfaceId,
    from: int,
) -> Option<usize>
    decreases owners.len() - from,
{
    if from < 0 || from >= owners.len() {
        None
    } else if owners[from] matches Some(slot) && slot.surface == surface {
        Some(from as usize)
    } else {
        owner_from(owners, surface, from + 1)
    }
}

/// The workspace whose fullscreen a surface has.
pub open spec fn owner_of(owners: Seq<Option<FullscreenSlot>>, surface: SurfaceId) -> Option<usize> {
    owner_from(owners, surface, 0)
}

/// The sizes of a rectangle.
pub open spec fn size_of_rect(rect: Option<Rectangle>) -> Option<Size> {
    match rect {
        Some(rect) => Some(rect.size),
        None => None,
    }
}

fn rect_size(rect: Option<Rectangle>) -> (size: Option<Size>)
    ensures
        size == size_of_rect(rect),
{
    match rect {
        Some(rect) => Some(rect.size),
        None => None,
    }
}

/// `first` where there is one, else `second`.
pub open spec fn either(first: Option<Size>, second: Option<Size>) -> Option<Size> {
    match first {
        Some(size) => Some(size),
        None => second,
    }
}

fn first_size(first: Option<Size>, second: Option<Size>) -> (size: Option<Size>)
    ensures
        size == either(first, second),
{
    match first {
        Some(size) => Some(size),
        None => second,
    }
}

impl State {
    /// The state after a toplevel is asked for another state; where that is a change and the client
    /// has had its first configure, it is told, and the size it is told is kept.
    pub open spec fn asked(
        self,
        window: SurfaceId,
        pending: ToplevelState,
        fallback: Option<Size>,
    ) -> State {
        let toplevel = self.toplevel(window);
        let asked = self.with_pending(window, pending);
        if pending != toplevel.pending && toplevel.configured {
            asked.with_size_synced(window, fallback).configured_if_changed(window)
        } else {
            asked
        }
    }

    /// Whether a client is told of another state that it is asked for.
    pub open spec fn tells(self, window: SurfaceId, pending: ToplevelState) -> bool {
        let toplevel = self.toplevel(window);
        pending != toplevel.pending && toplevel.configured && pending != toplevel.sent
    }

    /// The state that a fullscreen window's client is asked for.
    pub open spec fn fullscreen_pending(
        self,
        window: SurfaceId,
        target: Option<Rectangle>,
    ) -> ToplevelState {
        ToplevelState {
            fullscreen: true,
            maximized: false,
            size: size_of_rect(target),
            bounds: either(
                size_of_rect(target),
                size_of_rect(self.output_rect(self.preferred_output(window))),
            ),
            ..self.toplevel(window).pending.tiled(false)
        }
    }

    /// The state that a client is asked for when its window is no longer fullscreen.
    pub open spec fn windowed_pending(self, window: SurfaceId) -> ToplevelState {
        let pending = self.toplevel(window).pending;
        if self.marked_maximized(window) {
            ToplevelState { fullscreen: false, ..pending }
        } else {
            ToplevelState { fullscreen: false, size: None, bounds: None, ..pending }
        }
    }

    /// The state that a client is asked for on a change of fullscreen.
    pub open spec fn protocol_pending(
        self,
        window: SurfaceId,
        fullscreen: bool,
        target: Option<Rectangle>,
    ) -> ToplevelState {
        if fullscreen {
            self.fullscreen_pending(window, target)
        } else {
            self.windowed_pending(window)
        }
    }

    /// The size that counts as told where a configure asks for none.
    pub open spec fn told_fallback(self, window: SurfaceId, target: Option<Rectangle>) -> Option<
        Size,
    > {
        either(size_of_rect(target), size_of_rect(self.assigned_rect(window)))
    }

    /// The state after a client is asked for a change of fullscreen.
    pub open spec fn fullscreen_asked(
        self,
        window: SurfaceId,
        fullscreen: bool,
        target: Option<Rectangle>,
    ) -> State {
        self.asked(
            window,
            self.protocol_pending(window, fullscreen, target),
            self.told_fallback(window, target),
        )
    }

    /// The state that a maximized window's client is asked for.
    pub open spec fn maximized_pending(self, window: SurfaceId) -> ToplevelState {
        let target = self.work_area(window);
        ToplevelState {
            maximized: true,
            fullscreen: false,
            size: size_of_rect(target),
            bounds: either(
                size_of_rect(target),
                size_of_rect(self.output_rect(self.preferred_output(window))),
            ),
            ..self.toplevel(window).pending.tiled(false)
        }
    }

    /// The state after a client is asked to be maximized.
    pub open spec fn maximized_asked(self, window: SurfaceId) -> State {
        self.asked(
            window,
            self.maximized_pending(window),
            self.told_fallback(window, self.work_area(window)),
        )
    }

    /// The state that a tiled window's client is asked for.
    pub open spec fn tiled_pending(self, window: SurfaceId, size: Size, bounds: Size) -> ToplevelState {
        ToplevelState {
            fullscreen: false,
            maximized: false,
            size: Some(size),
            bounds: Some(bounds),
            ..self.toplevel(window).pending.tiled(true)
        }
    }

    /// The state after a client is asked to be tiled.
    pub open spec fn tiled_asked(self, window: SurfaceId, size: Size, bounds: Size) -> State {
        self.asked(window, self.tiled_pending(window, size, bounds), Some(size))
    }

    /// The state that a client is asked for when its window is no longer maximized.
    pub open spec fn restored_pending(self, window: SurfaceId) -> ToplevelState {
        ToplevelState {
            maximized: false,
            size: None,
            bounds: None,
            ..self.toplevel(window).pending
        }
    }

    /// The state after a client is asked not to be maximized.
    pub open spec fn restored_asked(self, window: SurfaceId) -> State {
        let toplevel = self.toplevel(window);
        let pending = self.restored_pending(window);
        let asked = self.with_pending(window, pending);
        if pending != toplevel.pending && toplevel.configured {
            asked.configured_if_changed(window)
        } else {
            asked
        }
    }

    /// The state without a fullscreen window on a workspace; its client is told if so asked.
    pub open spec fn owner_cleared(self, workspace: int, tell: bool) -> State {
        match self.slot(workspace) {
            Some(slot) => {
                let cleared = State { owners: self.owners.update(workspace, None), ..self };
                if tell && cleared.has_window(slot.surface) {
                    cleared.fullscreen_asked(slot.surface, false, None)
                } else {
                    cleared
                }
            },
            None => self,
        }
    }

    /// The state with a window that has a workspace's fullscreen, and no other workspace's.
    pub open spec fn owner_assigned(
        self,
        workspace: int,
        window: SurfaceId,
        output: Option<OutputId>,
    ) -> State {
        if !(0 <= workspace < self.owners.len()) {
            self
        } else {
            let free = match self.slot(workspace) {
                Some(slot) => if slot.surface != window {
                    self.owner_cleared(workspace, true)
                } else {
                    self
                },
                None => self,
            };
            State {
                owners: windows::disowned(free.owners, window).update(
                    workspace,
                    Some(FullscreenSlot { surface: window, output }),
                ),
                ..free
            }
        }
    }

    /// The state with a surface's fullscreen moved to another workspace.
    #[verifier::opaque]
    pub open spec fn owner_moved(self, surface: SurfaceId, target: int) -> State {
        if !(0 <= target < self.owners.len()) {
            self
        } else {
            match owner_of(self.owners, surface) {
                Some(source) => if source == target {
                    self
                } else {
                    let free = match self.slot(target) {
                        Some(slot) => if slot.surface != surface {
                            self.owner_cleared(target, true)
                        } else {
                            self
                        },
                        None => self,
                    };
                    State {
                        owners: free.owners.update(source as int, None).update(
                            target,
                            free.owners[source as int],
                        ),
                        ..free
                    }
                },
                None => self,
            }
        }
    }

    /// The state with a window's fullscreen taken away on its workspace, or wherever it has one.
    pub open spec fn fullscreen_left(self, window: SurfaceId) -> State {
        let workspace = match self.workspace_of(window) {
            Some(index) => index,
            None => self.current,
        };
        if self.owns_workspace(window) {
            self.owner_cleared(workspace as int, false)
        } else {
            State { owners: windows::disowned(self.owners, window), ..self }
        }
    }

    /// The state with a window made fullscreen or not, and its client asked for it.
    pub open spec fn fullscreen_set(
        self,
        window: SurfaceId,
        fullscreen: bool,
        requested: Option<OutputId>,
    ) -> State {
        let workspace = match self.workspace_of(window) {
            Some(index) => index,
            None => self.current,
        };
        if fullscreen {
            let owned = self.owner_assigned(
                workspace as int,
                window,
                self.resolved_output(window, requested),
            );
            owned.fullscreen_asked(window, true, owned.exclusive_rect(window))
        } else {
            self.fullscreen_left(window).fullscreen_asked(window, false, None)
        }
    }

    /// The state with a window maximized or not; its client is asked for it unless the window is
    /// fullscreen.
    pub open spec fn maximized_set(self, window: SurfaceId, maximized: bool) -> State {
        let noted = State {
            maximized: if maximized {
                self.maximized.insert(window)
            } else {
                self.maximized.remove(window)
            },
            ..self
        };
        if noted.owns_workspace(window) {
            noted
        } else if maximized {
            noted.maximized_asked(window)
        } else {
            noted.restored_asked(window)
        }
    }

    /// The state with nothing waiting for a surface to change its fullscreen.
    pub open spec fn transition_cleared(self, surface: SurfaceId) -> State {
        State { transitions: self.transitions.remove(surface), ..self }
    }

    /// The state after a window enters fullscreen.
    #[verifier::opaque]
    pub open spec fn fullscreen_entered(self, window: SurfaceId, requested: Option<OutputId>) -> State {
        let single = self.with_floating(window, false);
        let clear = State {
            recenter: single.recenter.remove(window),
            ..single.transition_cleared(window)
        };
        let set = clear.fullscreen_set(window, true, requested);
        match set.exclusive_rect(window) {
            Some(rect) => set.with_assigned(window, rect),
            None => set,
        }
    }

    /// Whether a window's entering fullscreen changes where it is fullscreen.
    #[verifier::opaque]
    pub open spec fn entering_matters(self, window: SurfaceId, requested: Option<OutputId>) -> bool {
        !self.owns_workspace(window) || self.slot_output(window) != self.fullscreen_entered(
            window,
            requested,
        ).slot_output(window)
    }

    /// The state with what a window goes back to kept, unless that is kept already.
    pub open spec fn restore_remembered(self, window: SurfaceId) -> State {
        if self.restores.contains_key(window) {
            self
        } else {
            State {
                restores: self.restores.insert(
                    window,
                    FullscreenRestoreState {
                        rect: match self.assigned_rect(window) {
                            Some(rect) => Some(rect),
                            None => self.shown_at(window),
                        },
                        maximized: self.marked_maximized(window),
                    },
                ),
                ..self
            }
        }
    }

    /// The rectangle that a window goes back to.
    pub open spec fn restore_rect(self, window: SurfaceId) -> Option<Rectangle> {
        if self.restores.contains_key(window) && self.restores[window].maximized {
            self.work_area(window)
        } else if self.restores.contains_key(window) && self.restores[window].rect is Some {
            self.restores[window].rect
        } else if self.marked_maximized(window) {
            self.work_area(window)
        } else {
            match self.layout_target(window) {
                Some((rect, _)) => Some(rect),
                None => None,
            }
        }
    }

    /// The state with a window waiting to enter fullscreen.
    pub open spec fn enter_noted(self, window: SurfaceId, requested: Option<OutputId>) -> State {
        let kept = if !self.owns_workspace(window) {
            self.restore_remembered(window)
        } else {
            self
        };
        State {
            transitions: kept.transitions.insert(
                window,
                PendingFullscreenTransition::Enter { requested_output: requested },
            ),
            ..kept
        }
    }

    /// The rectangle that a window asks for when it asks to enter fullscreen.
    pub open spec fn enter_rect(self, window: SurfaceId, requested: Option<OutputId>) -> Option<
        Rectangle,
    > {
        self.output_rect(self.resolved_output(window, requested))
    }

    /// The state after a window asks to enter fullscreen, as far as its client is asked.
    pub open spec fn enter_asked(self, window: SurfaceId, requested: Option<OutputId>) -> State {
        let noted = self.enter_noted(window, requested);
        noted.fullscreen_asked(window, true, noted.enter_rect(window, requested))
    }

    /// Whether the client is told when its window asks to enter fullscreen.
    pub open spec fn enter_tells(self, window: SurfaceId, requested: Option<OutputId>) -> bool {
        let noted = self.enter_noted(window, requested);
        noted.tells(
            window,
            noted.protocol_pending(window, true, noted.enter_rect(window, requested)),
        )
    }

    /// The state after a window asks to enter fullscreen: it waits for the client where that was
    /// told, and enters at once where there was nothing to tell and the window is on the screen.
    #[verifier::opaque]
    pub open spec fn enter_requested(self, window: SurfaceId, requested: Option<OutputId>) -> State {
        let asked = self.enter_asked(window, requested);
        if self.enter_tells(window, requested) || !asked.on_screen(window) {
            asked
        } else {
            asked.transition_cleared(window).fullscreen_entered(window, requested)
        }
    }

    /// Whether a window that asks to enter fullscreen enters it at once, on another output than
    /// before.
    #[verifier::opaque]
    pub open spec fn enters_at_once(self, window: SurfaceId, requested: Option<OutputId>) -> bool {
        let asked = self.enter_asked(window, requested);
        !self.enter_tells(window, requested) && asked.on_screen(window)
            && asked.transition_cleared(window).entering_matters(window, requested)
    }

    /// The state after a client is asked for what its window is outside fullscreen.
    pub open spec fn exit_asked(self, window: SurfaceId) -> State {
        if self.marked_maximized(window) {
            self.maximized_asked(window)
        } else {
            match self.layout_target(window) {
                Some((rect, bounds)) => self.tiled_asked(window, rect.size, bounds),
                None => self.fullscreen_asked(window, false, None),
            }
        }
    }

    /// Whether a client is told when it is asked for what its window is outside fullscreen.
    pub open spec fn exit_tells(self, window: SurfaceId) -> bool {
        if self.marked_maximized(window) {
            self.tells(window, self.maximized_pending(window))
        } else {
            match self.layout_target(window) {
                Some((rect, bounds)) => self.tells(
                    window,
                    self.tiled_pending(window, rect.size, bounds),
                ),
                None => self.tells(window, self.windowed_pending(window)),
            }
        }
    }

    /// The state after a fullscreen window is put back where it was.
    #[verifier::opaque]
    pub open spec fn exit_finalized(self, window: SurfaceId) -> State {
        if !self.owns_workspace(window) {
            self
        } else {
            let left = self.transition_cleared(window).fullscreen_left(window);
            let target = if left.marked_maximized(window) {
                left.work_area(window)
            } else {
                left.restore_rect(window)
            };
            match target {
                Some(rect) => left.mapped_to(window, rect, false),
                None => left,
            }
        }
    }

    /// The state after a window asks to leave fullscreen: it waits for the client where that was
    /// told, and leaves at once where there was nothing to tell and the window is on the screen.
    #[verifier::opaque]
    pub open spec fn exit_requested(self, window: SurfaceId) -> State {
        if !self.owns_workspace(window) {
            self.transition_cleared(window).fullscreen_asked(window, false, None)
        } else {
            let noted = State {
                transitions: self.transitions.insert(window, PendingFullscreenTransition::Exit),
                ..self
            };
            let asked = noted.exit_asked(window);
            if noted.exit_tells(window) || !asked.on_screen(window) {
                asked
            } else {
                asked.transition_cleared(window).exit_finalized(window)
            }
        }
    }

    /// Whether a window that asks to leave fullscreen leaves it at once.
    #[verifier::opaque]
    pub open spec fn exits_at_once(self, window: SurfaceId) -> bool {
        let noted = State {
            transitions: self.transitions.insert(window, PendingFullscreenTransition::Exit),
            ..self
        };
        self.owns_workspace(window) && !noted.exit_tells(window) && noted.exit_asked(
            window,
        ).on_screen(window)
    }

    /// The state after a window leaves fullscreen for good.
    #[verifier::opaque]
    pub open spec fn fullscreen_exited(self, window: SurfaceId) -> State {
        if !self.owns_workspace(window) {
            self
        } else {
            let clear = self.transition_cleared(window);
            let set = State { restores: clear.restores.remove(window), ..clear }.fullscreen_set(
                window,
                false,
                None,
            );
            set.windowed_settled(window)
        }
    }

    /// The state after a window that is no longer fullscreen is asked to be maximized or tiled.
    pub open spec fn windowed_settled(self, window: SurfaceId) -> State {
        if self.marked_maximized(window) {
            let asked = self.maximized_asked(window);
            match asked.exclusive_rect(window) {
                Some(rect) => asked.with_assigned(window, rect),
                None => asked,
            }
        } else {
            match self.layout_target(window) {
                Some((rect, bounds)) => self.tiled_asked(window, rect.size, bounds),
                None => self,
            }
        }
    }

    /// The rectangle that a change of fullscreen leads to.
    pub open spec fn transition_rect(
        self,
        window: SurfaceId,
        transition: PendingFullscreenTransition,
    ) -> Option<Rectangle> {
        match transition {
            PendingFullscreenTransition::Enter { requested_output } => self.output_rect(
                self.resolved_output(window, requested_output),
            ),
            PendingFullscreenTransition::Exit => self.restore_rect(window),
        }
    }

    /// The size that a client last committed.
    pub open spec fn committed_extent(self, window: SurfaceId) -> Size {
        let toplevel = self.toplevel(window);
        match toplevel.committed_size {
            Some(size) => size,
            None => match toplevel.surface_size {
                Some(size) => size,
                None => toplevel.geometry,
            },
        }
    }

    /// Whether a client has followed a change of fullscreen.
    pub open spec fn transition_ready(
        self,
        window: SurfaceId,
        transition: PendingFullscreenTransition,
    ) -> bool {
        match self.transition_rect(window, transition) {
            Some(rect) => self.committed_extent(window).close_to(rect.size),
            None => true,
        }
    }
}

impl Raven {
    /// Asks a toplevel for another state, and tells its client where that is a change and the client
    /// has had its first configure; whether it was told.
    pub fn ask(&mut self, window: SurfaceId, pending: ToplevelState, fallback: Option<Size>) -> (told:
        bool)
        ensures
            final(self)@ == old(self)@.asked(window, pending, fallback),
            told == old(self)@.tells(window, pending),
    {
        let toplevel = self.toplevel(window);
        self.set_pending_state(window, pending);
        if pending != toplevel.pending && toplevel.configured {
            let _ = self.sync_reported_size_from_pending_state(window, fallback);
            self.send_pending_configure(window)
        } else {
            false
        }
    }

    /// Asks a client for a change of fullscreen; whether it was told.
    pub fn apply_fullscreen_protocol_state(
        &mut self,
        window: SurfaceId,
        fullscreen: bool,
        target_rect: Option<Rectangle>,
    ) -> (told: bool)
        ensures
            final(self)@ == old(self)@.fullscreen_asked(window, fullscreen, target_rect),
            told == old(self)@.tells(
                window,
                old(self)@.protocol_pending(window, fullscreen, target_rect),
            ),
    {
        let before = self.toplevel(window).pending;
        let pending = if fullscreen {
            let output_bounds = rect_size(
                self.fullscreen_output_rect_for_output(self.preferred_output_for_window(window)),
            );
            ToplevelState {
                fullscreen: true,
                maximized: false,
                size: rect_size(target_rect),
                bounds: first_size(rect_size(target_rect), output_bounds),
                ..before.set_tiled_state(false)
            }
        } else if self.window_is_marked_maximized(window) {
            ToplevelState { fullscreen: false, ..before }
        } else {
            ToplevelState { fullscreen: false, size: None, bounds: None, ..before }
        };
        let fallback_size = first_size(
            rect_size(target_rect),
            rect_size(self.assigned_rect_for_window(window)),
        );
        self.ask(window, pending, fallback_size)
    }

    /// Asks a client to be maximized; whether it was told.
    pub fn configure_window_for_maximized_layout(&mut self, window: SurfaceId) -> (told: bool)
        ensures
            final(self)@ == old(self)@.maximized_asked(window),
            told == old(self)@.tells(window, old(self)@.maximized_pending(window)),
    {
        let before = self.toplevel(window).pending;
        let target_rect = self.work_area_rect_for_window(window);
        let output_bounds = rect_size(
            self.fullscreen_output_rect_for_output(self.preferred_output_for_window(window)),
        );
        let pending = ToplevelState {
            maximized: true,
            fullscreen: false,
            size: rect_size(target_rect),
            bounds: first_size(rect_size(target_rect), output_bounds),
            ..before.set_tiled_state(false)
        };
        let fallback_size = first_size(
            rect_size(target_rect),
            rect_size(self.assigned_rect_for_window(window)),
        );
        self.ask(window, pending, fallback_size)
    }

    /// Asks a client not to be maximized; whether it was told.
    pub fn clear_window_maximized_protocol_state(&mut self, window: SurfaceId) -> (told: bool)
        ensures
            final(self)@ == old(self)@.restored_asked(window),
            told == old(self)@.tells(window, old(self)@.restored_pending(window)),
    {
        let toplevel = self.toplevel(window);
        let pending = ToplevelState {
            maximized: false,
            size: None,
            bounds: None,
            ..toplevel.pending
        };
        self.set_pending_state(window, pending);
        if pending != toplevel.pending && toplevel.configured {
            self.send_pending_configure(window)
        } else {
            false
        }
    }

    /// Asks a client to be tiled; whether it was told.
    pub fn configure_window_for_tiled_layout(
        &mut self,
        window: SurfaceId,
        target_size: Size,
        layout_bounds: Size,
    ) -> (told: bool)
        ensures
            final(self)@ == old(self)@.tiled_asked(window, target_size, layout_bounds),
            told == old(self)@.tells(
                window,
                old(self)@.tiled_pending(window, target_size, layout_bounds),
            ),
    {
        let before = self.toplevel(window).pending;
        let pending = ToplevelState {
            fullscreen: false,
            maximized: false,
            size: Some(target_size),
            bounds: Some(layout_bounds),
            ..before.set_tiled_state(true)
        };
        self.ask(window, pending, Some(target_size))
    }

    /// Takes a workspace's fullscreen away; the client is told if so asked.
    pub fn clear_fullscreen_owner_for_workspace(
        &mut self,
        workspace_index: usize,
        clear_window_state: bool,
    )
        requires
            old(self)@.sound(),
        ensures
            final(self)@ == old(self)@.owner_cleared(workspace_index as int, clear_window_state),
            final(self)@.sound(),
    {
        if workspace_index >= self.fullscreen.owners.len() {
            return;
        }
        if let Some(slot) = self.fullscreen.owners[workspace_index] {
            self.fullscreen.owners.set(workspace_index, None);
            if clear_window_state && self.window_for_surface(slot.surface).is_some() {
                let _ = self.apply_fullscreen_protocol_state(slot.surface, false, None);
            }
        }
    }

    /// Gives a window a workspace's fullscreen, and takes it any other.
    pub fn assign_workspace_fullscreen_owner(
        &mut self,
        workspace_index: usize,
        window: SurfaceId,
        output: Option<OutputId>,
    )
        requires
            old(self)@.sound(),
        ensures
            final(self)@ == old(self)@.owner_assigned(workspace_index as int, window, output),
            final(self)@.sound(),
    {
        if workspace_index >= self.fullscreen.owners.len() {
            return;
        }
        if let Some(slot) = self.fullscreen.owners[workspace_index] {
            if slot.surface != window {
                self.clear_fullscreen_owner_for_workspace(workspace_index, true);
            }
        }
        self.clear_fullscreen_owner_for_surface(window);
        self.fullscreen.owners.set(
            workspace_index,
            Some(FullscreenSlot { surface: window, output }),
        );
    }

    fn owner_workspace(&self, surface: SurfaceId) -> (workspace: Option<usize>)
        ensures
            workspace == owner_of(self@.owners, surface),
            workspace matches Some(index) ==> index < self@.owners.len(),
    {
        let mut index: usize = 0;
        while index < self.fullscreen.owners.len()
            invariant
                index <= self.fullscreen.owners.len(),
                owner_of(self@.owners, surface) == owner_from(self@.owners, surface, index as int),
            decreases self.fullscreen.owners.len() - index,
        {
            if let Some(slot) = self.fullscreen.owners[index] {
                if slot.surface == surface {
                    return Some(index);
                }
            }
            index = index + 1;
        }
        None
    }

    /// Moves a surface's fullscreen to another workspace.
    pub fn move_workspace_fullscreen_owner_surface(
        &mut self,
        surface: SurfaceId,
        target_workspace: usize,
    )
        requires
            old(self)@.sound(),
        ensures
            final(self)@ == old(self)@.owner_moved(surface, target_workspace as int),
            final(self)@.current == old(self)@.current,
            final(self)@.sound(),
    {
        proof {
            reveal(State::owner_moved);
        }
        if target_workspace >= self.fullscreen.owners.len() {
            return;
        }
        if let Some(source_workspace) = self.owner_workspace(surface) {
            if source_workspace == target_workspace {
                return;
            }
            if let Some(slot) = self.fullscreen.owners[target_workspace] {
                if slot.surface != surface {
                    self.clear_fullscreen_owner_for_workspace(target_workspace, true);
                }
            }
            let slot = self.fullscreen.owners[source_workspace];
            self.fullscreen.owners.set(source_workspace, None);
            self.fullscreen.owners.set(target_workspace, slot);
        }
    }

    fn leave_fullscreen(&mut self, window: SurfaceId)
        requires
            old(self)@.sound(),
        ensures
            final(self)@ == old(self)@.fullscreen_left(window),
            final(self)@.sound(),
    {
        let workspace_index = match self.workspace_index_for_window(window) {
            Some(index) => index,
            None => self.current_workspace,
        };
        if self.window_is_workspace_fullscreen_owner(window) {
            self.clear_fullscreen_owner_for_workspace(workspace_index, false);
        } else {
            self.clear_fullscreen_owner_for_surface(window);
        }
    }

    /// Makes a window fullscreen or not, and asks its client for it.
    pub fn set_window_fullscreen_state_for_output(
        &mut self,
        window: SurfaceId,
        fullscreen: bool,
        requested_output: Option<OutputId>,
    )
        requires
            old(self)@.sound(),
        ensures
            final(self)@ == old(self)@.fullscreen_set(window, fullscreen, requested_output),
            final(self)@.sound(),
    {
        let workspace_index = match self.workspace_index_for_window(window) {
            Some(index) => index,
            None => self.current_workspace,
        };
        if fullscreen {
            let output = self.resolve_fullscreen_output(window, requested_output);
            self.assign_workspace_fullscreen_owner(workspace_index, window, output);
            let target_rect = self.window_exclusive_target_rect(window);
            let _ = self.apply_fullscreen_protocol_state(window, true, target_rect);
        } else {
            self.leave_fullscreen(window);
            let _ = self.apply_fullscreen_protocol_state(window, false, None);
        }
    }

    /// Makes a window maximized or not; its client is asked for it unless the window is fullscreen.
    pub fn set_window_maximized_state(&mut self, window: SurfaceId, maximized: bool)
        ensures
            final(self)@ == old(self)@.maximized_set(window, maximized),
    {
        if maximized {
            self.fullscreen.maximized.insert(window);
        } else {
            self.fullscreen.maximized.remove(&window);
        }
        if self.window_effective_fullscreen_state(window) {
            return;
        }
        if maximized {
            let _ = self.configure_window_for_maximized_layout(window);
        } else {
            let _ = self.clear_window_maximized_protocol_state(window);
        }
    }

    fn clear_pending_fullscreen_transition_for_surface(&mut self, surface: SurfaceId)
        ensures
            final(self)@ == old(self)@.transition_cleared(surface),
    {
        self.fullscreen.pending_transitions.remove(&surface);
    }

    /// Makes a window fullscreen; whether that changes where it is fullscreen.
    pub fn enter_fullscreen_window_on_output(
        &mut self,
        window: SurfaceId,
        requested_output: Option<OutputId>,
    ) -> (changed: bool)
        requires
            old(self)@.sound(),
        ensures
            final(self)@ == old(self)@.fullscreen_entered(window, requested_output),
            changed == old(self)@.entering_matters(window, requested_output),
            final(self)@.sound(),
    {
        proof {
            reveal(State::fullscreen_entered);
            reveal(State::entering_matters);
        }
        let was_fullscreen = self.window_effective_fullscreen_state(window);
        let previous_output = self.fullscreen_slot_output_for_window(window);
        self.set_window_floating(window, false);
        self.clear_floating_recenter_for_surface(window);
        self.clear_pending_fullscreen_transition_for_surface(window);
        self.set_window_fullscreen_state_for_output(window, true, requested_output);
        if let Some(target_rect) = self.window_exclusive_target_rect(window) {
            self.record_assigned_rect_for_window(window, target_rect);
        }
        let next_output = self.fullscreen_slot_output_for_window(window);
        let same_output = match (previous_output, next_output) {
            (Some(previous), Some(next)) => previous == next,
            (None, None) => true,
            _ => false,
        };
        !was_fullscreen || !same_output
    }

    /// Makes a window fullscreen on the output that it is meant for; whether that changes where it
    /// is fullscreen.
    pub fn enter_fullscreen_window(&mut self, window: SurfaceId) -> (changed: bool)
        requires
            old(self)@.sound(),
        ensures
            final(self)@ == old(self)@.fullscreen_entered(window, None),
            changed == old(self)@.entering_matters(window, None),
            final(self)@.sound(),
    {
        self.enter_fullscreen_window_on_output(window, None)
    }

    /// Makes a fullscreen window what it is outside fullscreen; whether it was fullscreen.
    pub fn exit_fullscreen_window(&mut self, window: SurfaceId) -> (was_fullscreen: bool)
        requires
            old(self)@.sound(),
        ensures
            final(self)@ == old(self)@.fullscreen_exited(window),
            was_fullscreen == old(self)@.owns_workspace(window),
            !was_fullscreen ==> final(self)@ == old(self)@,
            final(self)@.sound(),
    {
        proof {
            reveal(State::fullscreen_exited);
        }
        if !self.window_effective_fullscreen_state(window) {
            return false;
        }
        self.clear_pending_fullscreen_transition_for_surface(window);
        self.fullscreen.restore_states.remove(&window);
        self.set_window_fullscreen_state_for_output(window, false, None);
        self.settle_windowed(window);
        true
    }

    fn settle_windowed(&mut self, window: SurfaceId)
        requires
            old(self)@.sound(),
        ensures
            final(self)@ == old(self)@.windowed_settled(window),
            final(self)@.sound(),
    {
        if self.window_is_marked_maximized(window) {
            let _ = self.configure_window_for_maximized_layout(window);
            if let Some(target_rect) = self.window_exclusive_target_rect(window) {
                self.record_assigned_rect_for_window(window, target_rect);
            }
        } else if let Some((target_geometry, layout_bounds)) =
            self.compute_workspace_layout_target(window) {
            let _ = self.configure_window_for_tiled_layout(
                window,
                target_geometry.size,
                layout_bounds,
            );
        }
    }

    fn remember_fullscreen_restore_state(&mut self, window: SurfaceId)
        ensures
            final(self)@ == old(self)@.restore_remembered(window),
    {
        if self.fullscreen.restore_states.contains_key(&window) {
            return;
        }
        let rect = match self.assigned_rect_for_window(window) {
            Some(rect) => Some(rect),
            None => self.element_geometry(window),
        };
        let maximized = self.window_is_marked_maximized(window);
        self.fullscreen.restore_states.insert(window, FullscreenRestoreState { rect, maximized });
    }

    /// Asks for a window to enter fullscreen; whether it entered at once, on another output than
    /// before.
    pub fn request_fullscreen_enter_on_output(
        &mut self,
        window: SurfaceId,
        requested_output: Option<OutputId>,
    ) -> (entered: bool)
        requires
            old(self)@.sound(),
        ensures
            final(self)@ == old(self)@.enter_requested(window, requested_output),
            entered == old(self)@.enters_at_once(window, requested_output),
            final(self)@.sound(),
    {
        proof {
            reveal(State::enter_requested);
            reveal(State::enters_at_once);
        }
        if !self.window_effective_fullscreen_state(window) {
            self.remember_fullscreen_restore_state(window);
        }
        self.fullscreen.pending_transitions.insert(
            window,
            PendingFullscreenTransition::Enter { requested_output },
        );
        assert(self@ == old(self)@.enter_noted(window, requested_output));
        let target_output = self.resolve_fullscreen_output(window, requested_output);
        let target_rect = self.fullscreen_output_rect_for_output(target_output);
        let told = self.apply_fullscreen_protocol_state(window, true, target_rect);
        if told {
            return false;
        }
        if !self.is_window_mapped(window) {
            return false;
        }
        self.clear_pending_fullscreen_transition_for_surface(window);
        self.enter_fullscreen_window_on_output(window, requested_output)
    }

    fn prepare_fullscreen_exit_protocol_state(&mut self, window: SurfaceId) -> (told: bool)
        requires
            old(self)@.sound(),
        ensures
            final(self)@ == old(self)@.exit_asked(window),
            told == old(self)@.exit_tells(window),
            final(self)@.sound(),
    {
        if self.window_is_marked_maximized(window) {
            return self.configure_window_for_maximized_layout(window);
        }
        if let Some((target_geometry, layout_bounds)) = self.compute_workspace_layout_target(
            window,
        ) {
            return self.configure_window_for_tiled_layout(
                window,
                target_geometry.size,
                layout_bounds,
            );
        }
        self.apply_fullscreen_protocol_state(window, false, None)
    }

    /// The rectangle that a window goes back to.
    pub fn fullscreen_restore_target_rect(&self, window: SurfaceId) -> (rect: Option<Rectangle>)
        requires
            self@.sound(),
        ensures
            rect == self@.restore_rect(window),
    {
        if let Some(restore_state) = self.fullscreen.restore_states.get(&window) {
            if restore_state.maximized {
                return self.work_area_rect_for_window(window);
            }
            if let Some(rect) = restore_state.rect {
                return Some(rect);
            }
        }
        if self.window_is_marked_maximized(window) {
            return self.work_area_rect_for_window(window);
        }
        match self.compute_workspace_layout_target(window) {
            Some((rect, _)) => Some(rect),
            None => None,
        }
    }

    /// Puts a fullscreen window back where it was; whether it was fullscreen.
    pub fn finalize_fullscreen_exit_visual_state(&mut self, window: SurfaceId) -> (was_fullscreen:
        bool)
        requires
            old(self)@.sound(),
        ensures
            final(self)@ == old(self)@.exit_finalized(window),
            was_fullscreen == old(self)@.owns_workspace(window),
            !was_fullscreen ==> final(self)@ == old(self)@,
            final(self)@.sound(),
    {
        proof {
            reveal(State::exit_finalized);
        }
        if !self.window_effective_fullscreen_state(window) {
            return false;
        }
        self.clear_pending_fullscreen_transition_for_surface(window);
        self.leave_fullscreen(window);
        let target = if self.window_is_marked_maximized(window) {
            self.work_area_rect_for_window(window)
        } else {
            self.fullscreen_restore_target_rect(window)
        };
        if let Some(target_rect) = target {
            self.map_window_to_rect(window, target_rect, false);
        }
        true
    }

    /// Asks for a window to leave fullscreen; whether it left at once.
    pub fn request_fullscreen_exit(&mut self, window: SurfaceId) -> (exited: bool)
        requires
            old(self)@.sound(),
        ensures
            final(self)@ == old(self)@.exit_requested(window),
            exited == old(self)@.exits_at_once(window),
            final(self)@.sound(),
    {
        proof {
            reveal(State::exit_requested);
            reveal(State::exits_at_once);
        }
        if !self.window_effective_fullscreen_state(window) {
            self.clear_pending_fullscreen_transition_for_surface(window);
            let _ = self.apply_fullscreen_protocol_state(window, false, None);
            return false;
        }
        self.fullscreen.pending_transitions.insert(window, PendingFullscreenTransition::Exit);
        let told = self.prepare_fullscreen_exit_protocol_state(window);
        if told {
            return false;
        }
        if !self.is_window_mapped(window) {
            return false;
        }
        self.clear_pending_fullscreen_transition_for_surface(window);
        self.finalize_fullscreen_exit_visual_state(window)
    }

    /// Whether a client has followed a change of fullscreen.
    pub fn pending_fullscreen_transition_is_ready(
        &self,
        window: SurfaceId,
        transition: PendingFullscreenTransition,
    ) -> (ready: bool)
        requires
            self@.sound(),
        ensures
            ready == self@.transition_ready(window, transition),
    {
        let target = match transition {
            PendingFullscreenTransition::Enter {
                requested_output,
            } => self.fullscreen_output_rect_for_output(
                self.resolve_fullscreen_output(window, requested_output),
            ),
            PendingFullscreenTransition::Exit => self.fullscreen_restore_target_rect(window),
        };
        match target {
            Some(rect) => {
                let toplevel = self.toplevel(window);
                let actual = match toplevel.committed_size {
                    Some(size) => size,
                    None => match toplevel.surface_size {
                        Some(size) => size,
                        None => toplevel.geometry,
                    },
                };
                actual.sizes_match_target(rect.size)
            },
            None => true,
        }
    }
}

} // verus!
