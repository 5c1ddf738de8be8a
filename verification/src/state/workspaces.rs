//! Moving windows between workspaces, and from one workspace to another.

use crate::errors;
use crate::errors::{CompositorError, Failure};
use crate::state::layout::copy_list;
use crate::state::lists;
use crate::state::lists::{
    add_window_to_workspace_list, no_such_workspace_error, remove_window_from_workspace_list,
    SurfaceId,
};
use crate::state::raven::{Raven, State};
use vstd::prelude::*;

verus! {

broadcast use vstd::std_specs::hash::group_hash_axioms;

impl State {
    /// The state with a window put onto the screen, unless it must not be there yet.
    pub open spec fn shown_if_mappable(self, window: SurfaceId) -> State {
        if self.unmapped_marks.contains(window) {
            self
        } else {
            self.mapped_to(window, self.initial_rect(window), false)
        }
    }

    /// The state with an unmapped window on another workspace.
    pub open spec fn unmapped_moved(self, window: SurfaceId, target: int) -> State {
        let listed = State { mapped: lists::removed(self.mapped, window), ..self };
        if lists::index_of(self.unmapped, window) == Some(target as usize) {
            listed.owner_moved(window, target)
        } else {
            State {
                unmapped: lists::added(lists::removed(self.unmapped, window), target, window),
                ..listed
            }.owner_moved(window, target)
        }
    }

    /// The state with a mapped window, or one that is on no workspace yet, on another workspace; it
    /// leaves the screen or comes onto it accordingly.
    pub open spec fn mapped_moved(self, window: SurfaceId, target: int) -> State {
        let listed = match lists::index_of(self.mapped, window) {
            Some(source) => if source == target {
                self
            } else {
                let moved = State {
                    mapped: lists::added(lists::removed(self.mapped, window), target, window),
                    ..self
                };
                if source == self.current {
                    moved.unmapped_window(window)
                } else if target == self.current {
                    moved.shown_if_mappable(window)
                } else {
                    moved
                }
            },
            None => {
                let moved = State { mapped: lists::added(self.mapped, target, window), ..self };
                if target == self.current {
                    moved.shown_if_mappable(window)
                } else {
                    moved
                }
            },
        };
        State { unmapped: lists::removed(listed.unmapped, window), ..listed }.owner_moved(
            window,
            target,
        )
    }

    /// The state with a window on another workspace, and whether there is no such workspace.
    #[verifier::opaque]
    pub open spec fn moved_to_workspace(self, window: SurfaceId, target: int) -> (
        State,
        Result<(), Failure>,
    ) {
        if target >= self.mapped.len() {
            (self, Err(lists::no_such_workspace(target)))
        } else if self.unmapped_marks.contains(window) || lists::index_of(self.unmapped, window)
            is Some {
            (self.unmapped_moved(window, target), Ok(()))
        } else {
            (self.mapped_moved(window, target), Ok(()))
        }
    }

    /// The state with these windows off the screen.
    pub open spec fn all_unmapped(self, list: Seq<SurfaceId>) -> State
        decreases list.len(),
    {
        if list.len() == 0 {
            self
        } else {
            self.all_unmapped(list.drop_last()).unmapped_window(list.last())
        }
    }

    /// The state with a window of the new current workspace on the screen: its client is told what
    /// it was not told yet, and it takes on what it asked for meanwhile.
    pub open spec fn arrived(self, window: SurfaceId) -> State {
        if self.unmapped_marks.contains(window) {
            self
        } else {
            let shown = self.mapped_to(window, self.initial_rect(window), false);
            let told = if shown.toplevel(window).configured {
                shown.configured_if_changed(window)
            } else {
                shown
            };
            told.pending_applied(window)
        }
    }

    /// The state with these windows of the new current workspace on the screen.
    pub open spec fn all_arrived(self, list: Seq<SurfaceId>) -> State
        decreases list.len(),
    {
        if list.len() == 0 {
            self
        } else {
            self.all_arrived(list.drop_last()).arrived(list.last())
        }
    }

    /// The state with another current workspace, before the screen is laid out.
    pub open spec fn workspace_entered(self, target: int) -> State {
        let pruned = self.pruned();
        let left = pruned.all_unmapped(pruned.mapped[pruned.current as int]);
        let entered = State { current: target as usize, ..left };
        entered.all_arrived(entered.mapped[target])
    }

    /// The state with another current workspace, and whether that failed.
    #[verifier::opaque]
    pub open spec fn workspace_switched(self, target: int) -> (State, Result<(), Failure>) {
        if target >= self.mapped.len() {
            (self, Err(lists::no_such_workspace(target)))
        } else if target == self.current {
            (self, Ok(()))
        } else {
            let (laid_out, result) = self.workspace_entered(target).laid_out();
            match result {
                Err(failure) => (laid_out, Err(failure)),
                Ok(_) => (State { redraw_all: true, ..laid_out.refocused() }, Ok(())),
            }
        }
    }

    /// The state with the focused window on another workspace, and whether that failed.
    #[verifier::opaque]
    pub open spec fn focused_moved(self, target: int) -> (State, Result<(), Failure>) {
        if target >= self.mapped.len() {
            (self, Err(lists::no_such_workspace(target)))
        } else {
            match self.keyboard_focus {
                None => (self, Ok(())),
                Some(window) => {
                    let source = match self.workspace_of(window) {
                        Some(index) => index,
                        None => self.current,
                    };
                    if !self.has_window(window) || source == target {
                        (self, Ok(()))
                    } else {
                        let moved = self.moved_to_workspace(window, target).0;
                        if source == self.current {
                            let (laid_out, result) = moved.laid_out();
                            match result {
                                Err(failure) => (laid_out, Err(failure)),
                                Ok(_) => (laid_out.refocused(), Ok(())),
                            }
                        } else if target == self.current && moved.on_screen(window) {
                            moved.laid_out()
                        } else if target == self.current && !moved.unmapped_marks.contains(
                            window,
                        ) {
                            moved.shown_if_mappable(window).laid_out()
                        } else {
                            (moved, Ok(()))
                        }
                    }
                },
            }
        }
    }
}

impl Raven {
    /// Puts a window onto another workspace.
    pub fn move_window_to_workspace_internal(
        &mut self,
        window: SurfaceId,
        target_workspace: usize,
    ) -> (result: Result<(), CompositorError>)
        requires
            old(self)@.sound(),
        ensures
            (final(self)@, errors::outcome(result)) == old(self)@.moved_to_workspace(
                window,
                target_workspace as int,
            ),
            result is Ok <==> target_workspace < old(self)@.mapped.len(),
            final(self)@.current == old(self)@.current,
            final(self)@.sound(),
    {
        proof {
            reveal(State::moved_to_workspace);
        }
        if target_workspace >= self.workspaces.len() {
            return Err(no_such_workspace_error(target_workspace));
        }
        if self.window_is_unmapped_toplevel(window) || self.workspace_index_for_unmapped_window(
            window,
        ).is_some() {
            self.move_unmapped_window(window, target_workspace);
        } else {
            self.move_mapped_window(window, target_workspace);
        }
        Ok(())
    }

    fn move_unmapped_window(&mut self, window: SurfaceId, target_workspace: usize)
        requires
            old(self)@.sound(),
        ensures
            final(self)@ == old(self)@.unmapped_moved(window, target_workspace as int),
            final(self)@.current == old(self)@.current,
            final(self)@.sound(),
    {
        let stays = match self.workspace_index_for_unmapped_window(window) {
            Some(source) => source == target_workspace,
            None => false,
        };
        remove_window_from_workspace_list(&mut self.workspaces, window);
        if !stays {
            remove_window_from_workspace_list(&mut self.unmapped_workspaces, window);
            let _ = add_window_to_workspace_list(
                &mut self.unmapped_workspaces,
                target_workspace,
                window,
            );
        }
        self.move_workspace_fullscreen_owner_surface(window, target_workspace);
    }

    fn move_mapped_window(&mut self, window: SurfaceId, target_workspace: usize)
        requires
            old(self)@.sound(),
        ensures
            final(self)@ == old(self)@.mapped_moved(window, target_workspace as int),
            final(self)@.current == old(self)@.current,
            final(self)@.sound(),
    {
        match self.workspace_index_for_mapped_window(window) {
            Some(source) => {
                if source != target_workspace {
                    remove_window_from_workspace_list(&mut self.workspaces, window);
                    let _ = add_window_to_workspace_list(
                        &mut self.workspaces,
                        target_workspace,
                        window,
                    );
                    if source == self.current_workspace {
                        self.unmap_window(window);
                    } else if target_workspace == self.current_workspace {
                        let _ = self.map_window_to_initial_location_if_mappable(window, false);
                    }
                }
            },
            None => {
                self.add_window_to_workspace(target_workspace, window);
                if target_workspace == self.current_workspace {
                    let _ = self.map_window_to_initial_location_if_mappable(window, false);
                }
            },
        }
        remove_window_from_workspace_list(&mut self.unmapped_workspaces, window);
        self.move_workspace_fullscreen_owner_surface(window, target_workspace);
    }

    fn unmap_all(&mut self, list: &Vec<SurfaceId>)
        requires
            old(self)@.sound(),
        ensures
            final(self)@ == old(self)@.all_unmapped(list@),
            final(self)@.sound(),
    {
        let ghost before = self@;
        let mut index: usize = 0;
        assert(list@.take(0) =~= seq![]);
        while index < list.len()
            invariant
                index <= list.len(),
                self@ == before.all_unmapped(list@.take(index as int)),
                self@.sound(),
            decreases list.len() - index,
        {
            assert(list@.take(index + 1).drop_last() =~= list@.take(index as int));
            self.unmap_window(list[index]);
            index = index + 1;
        }
        assert(list@.take(list@.len() as int) =~= list@);
    }

    fn arrive_all(&mut self, list: &Vec<SurfaceId>)
        requires
            old(self)@.sound(),
        ensures
            final(self)@ == old(self)@.all_arrived(list@),
            final(self)@.sound(),
    {
        let ghost before = self@;
        let mut index: usize = 0;
        assert(list@.take(0) =~= seq![]);
        while index < list.len()
            invariant
                index <= list.len(),
                self@ == before.all_arrived(list@.take(index as int)),
                self@.sound(),
            decreases list.len() - index,
        {
            assert(list@.take(index + 1).drop_last() =~= list@.take(index as int));
            let window = list[index];
            if self.map_window_to_initial_location_if_mappable(window, false) {
                if self.toplevel(window).configured {
                    let _ = self.send_pending_configure(window);
                }
                self.maybe_apply_pending_unmapped_state_for_surface(window);
            }
            index = index + 1;
        }
        assert(list@.take(list@.len() as int) =~= list@);
    }

    /// Makes another workspace the current one.
    pub fn switch_workspace(&mut self, target_workspace: usize) -> (result: Result<
        (),
        CompositorError,
    >)
        requires
            old(self)@.sound(),
        ensures
            (final(self)@, errors::outcome(result)) == old(self)@.workspace_switched(
                target_workspace as int,
            ),
            final(self)@.sound(),
    {
        proof {
            reveal(State::workspace_switched);
            crate::state::lifecycle::burying_keeps_sound(self@, self@.dead_windows());
        }
        if target_workspace >= self.workspaces.len() {
            return Err(no_such_workspace_error(target_workspace));
        }
        if target_workspace == self.current_workspace {
            return Ok(());
        }
        self.prune_windows_without_live_client();
        let current_windows = copy_list(&self.workspaces[self.current_workspace]);
        self.unmap_all(&current_windows);
        self.current_workspace = target_workspace;
        let target_windows = copy_list(&self.workspaces[target_workspace]);
        self.arrive_all(&target_windows);
        assert(self@ == old(self)@.workspace_entered(target_workspace as int));
        match self.apply_layout() {
            Err(error) => return Err(error),
            Ok(_) => {},
        }
        self.refocus_visible_window();
        self.redraw_all = true;
        Ok(())
    }

    /// Puts the focused window onto another workspace.
    pub fn move_focused_window_to_workspace(&mut self, target_workspace: usize) -> (result: Result<
        (),
        CompositorError,
    >)
        requires
            old(self)@.sound(),
        ensures
            (final(self)@, errors::outcome(result)) == old(self)@.focused_moved(
                target_workspace as int,
            ),
            final(self)@.sound(),
    {
        proof {
            reveal(State::focused_moved);
        }
        if target_workspace >= self.workspaces.len() {
            return Err(no_such_workspace_error(target_workspace));
        }
        let window = match self.keyboard_focus {
            Some(surface) => match self.window_for_surface(surface) {
                Some(window) => window,
                None => return Ok(()),
            },
            None => return Ok(()),
        };
        let source_workspace = match self.workspace_index_for_window(window) {
            Some(index) => index,
            None => self.current_workspace,
        };
        if source_workspace == target_workspace {
            return Ok(());
        }
        match self.move_window_to_workspace_internal(window, target_workspace) {
            Err(error) => return Err(error),
            Ok(_) => {},
        }
        if source_workspace == self.current_workspace {
            match self.apply_layout() {
                Err(error) => return Err(error),
                Ok(_) => {},
            }
            self.refocus_visible_window();
        } else if target_workspace == self.current_workspace {
            if self.is_window_mapped(window) {
                return self.apply_layout();
            }
            if self.map_window_to_initial_location_if_mappable(window, false) {
                return self.apply_layout();
            }
        }
        Ok(())
    }
}

} // verus!
