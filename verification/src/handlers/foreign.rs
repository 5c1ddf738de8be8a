//! The requests that another client makes of a window.

use crate::state::lists::SurfaceId;
use crate::state::raven::{Raven, State, WORKSPACE_COUNT};
use vstd::prelude::*;

verus! {

broadcast use vstd::std_specs::hash::group_hash_axioms;

impl State {
    /// The first workspace at or after `from` that holds a window, mapped or not.
    pub open spec fn holder_from(self, window: SurfaceId, from: int) -> Option<usize>
        decreases WORKSPACE_COUNT - from,
    {
        if from < 0 || from >= WORKSPACE_COUNT {
            None
        } else if self.workspace_holds(from, window) {
            Some(from as usize)
        } else {
            self.holder_from(window, from + 1)
        }
    }

    /// The state with the workspace of a window current, and whether that failed.
    pub open spec fn workspace_followed(self, window: SurfaceId) -> (State, bool) {
        match self.holder_from(window, 0) {
            Some(target) => if target != self.current {
                let (state, result) = self.workspace_switched(target as int);
                (state, result is Err)
            } else {
                (self, false)
            },
            None => (self, false),
        }
    }

    /// The state after another client asks for a window to be active.
    #[verifier::opaque]
    pub open spec fn foreign_activated(self, surface: SurfaceId) -> State {
        if !self.has_window(surface) {
            self
        } else {
            let (there, failed) = self.workspace_followed(surface);
            if failed {
                there
            } else {
                there.raised_in_layer(surface).focus_set(Some(surface))
            }
        }
    }

    /// The state after another client asks for a window to be fullscreen.
    #[verifier::opaque]
    pub open spec fn foreign_fullscreen(self, surface: SurfaceId) -> State {
        if !self.has_window(surface) {
            self
        } else {
            let settled = self.settled(surface);
            if !self.on_screen(surface) {
                settled.fullscreen_awaited(surface).answered_if_changed(surface)
            } else {
                let clear = State {
                    pending_fullscreen: settled.pending_fullscreen.remove(surface),
                    ..settled
                };
                let (there, failed) = clear.workspace_followed(surface);
                if failed {
                    there
                } else if there.entering_matters(surface, None) {
                    there.fullscreen_entered(surface, None).raised(surface).laid_out().0
                } else {
                    there.fullscreen_entered(surface, None)
                }
            }
        }
    }

    /// The state after another client asks for a window not to be fullscreen.
    #[verifier::opaque]
    pub open spec fn foreign_windowed(self, surface: SurfaceId) -> State {
        if !self.has_window(surface) {
            self
        } else {
            let clear = State {
                pending_fullscreen: self.pending_fullscreen.remove(surface),
                ..self
            };
            if !self.on_screen(surface) {
                clear.windowed_awaited(surface).answered_if_changed(surface)
            } else if clear.owns_workspace(surface) {
                clear.fullscreen_exited(surface).laid_out().0
            } else {
                clear
            }
        }
    }

    /// The state after another client asks for a window to be maximized.
    pub open spec fn foreign_maximized(self, surface: SurfaceId) -> State {
        if !self.has_window(surface) {
            self
        } else {
            let noted = self.maximize_noted(surface);
            if noted.on_screen(surface) {
                noted.raised_in_layer(surface)
            } else {
                noted
            }
        }
    }

    /// The state after another client asks for a window not to be maximized.
    pub open spec fn foreign_unmaximized(self, surface: SurfaceId) -> State {
        if !self.has_window(surface) {
            self
        } else {
            self.unmaximized(surface)
        }
    }
}

impl Raven {
    fn follow_workspace(&mut self, window: SurfaceId) -> (failed: bool)
        requires
            old(self)@.sound(),
        ensures
            (final(self)@, failed) == old(self)@.workspace_followed(window),
            final(self)@.sound(),
    {
        let mut index: usize = 0;
        while index < WORKSPACE_COUNT
            invariant_except_break
                index <= WORKSPACE_COUNT,
                self@ == old(self)@,
                self@.sound(),
                self@.holder_from(window, 0) == self@.holder_from(window, index as int),
            ensures
                self@ == old(self)@,
                self@.sound(),
                index <= WORKSPACE_COUNT,
                self@.holder_from(window, 0) == (if index < WORKSPACE_COUNT {
                    Some(index)
                } else {
                    None
                }),
            decreases WORKSPACE_COUNT - index,
        {
            if self.workspace_contains_window(index, window) {
                break;
            }
            index = index + 1;
        }
        if index < WORKSPACE_COUNT && index != self.current_workspace {
            return self.switch_workspace(index).is_err();
        }
        false
    }

    /// Another client asks for a window to be active.
    pub fn activate(&mut self, surface: SurfaceId)
        requires
            old(self)@.sound(),
        ensures
            final(self)@ == old(self)@.foreign_activated(surface),
            final(self)@.sound(),
    {
        proof {
            reveal(State::foreign_activated);
        }
        if self.window_for_surface(surface).is_none() {
            return;
        }
        if self.follow_workspace(surface) {
            return;
        }
        self.raise_window_preserving_layer(surface);
        self.set_keyboard_focus(Some(surface));
    }

    /// Another client asks for a window to be fullscreen.
    pub fn set_fullscreen(&mut self, surface: SurfaceId)
        requires
            old(self)@.sound(),
        ensures
            final(self)@ == old(self)@.foreign_fullscreen(surface),
            final(self)@.sound(),
    {
        proof {
            reveal(State::foreign_fullscreen);
        }
        if self.window_for_surface(surface).is_none() {
            return;
        }
        self.set_window_floating(surface, false);
        self.clear_floating_recenter_for_surface(surface);
        if !self.is_window_mapped(surface) {
            self.await_fullscreen(surface);
            if self.toplevel(surface).configured {
                let _ = self.send_pending_configure(surface);
            }
            return;
        }
        self.clear_pending_unmapped_fullscreen_for_surface(surface);
        if self.follow_workspace(surface) {
            return;
        }
        if self.enter_fullscreen_window(surface) {
            self.raise_element(surface);
            let _ = self.apply_layout();
        }
    }

    /// Another client asks for a window not to be fullscreen.
    pub fn unset_fullscreen(&mut self, surface: SurfaceId)
        requires
            old(self)@.sound(),
        ensures
            final(self)@ == old(self)@.foreign_windowed(surface),
            final(self)@.sound(),
    {
        proof {
            reveal(State::foreign_windowed);
        }
        if self.window_for_surface(surface).is_none() {
            return;
        }
        self.clear_pending_unmapped_fullscreen_for_surface(surface);
        if !self.is_window_mapped(surface) {
            self.await_windowed(surface);
            if self.toplevel(surface).configured {
                let _ = self.send_pending_configure(surface);
            }
            return;
        }
        if self.exit_fullscreen_window(surface) {
            let _ = self.apply_layout();
        }
    }

    /// Another client asks for a window to be maximized.
    pub fn set_maximized(&mut self, surface: SurfaceId)
        requires
            old(self)@.sound(),
        ensures
            final(self)@ == old(self)@.foreign_maximized(surface),
            final(self)@.sound(),
    {
        if self.window_for_surface(surface).is_none() {
            return;
        }
        self.note_maximized(surface);
        if self.is_window_mapped(surface) {
            self.raise_window_preserving_layer(surface);
        }
    }

    /// Another client asks for a window not to be maximized.
    pub fn unset_maximized(&mut self, surface: SurfaceId)
        requires
            old(self)@.sound(),
        ensures
            final(self)@ == old(self)@.foreign_unmaximized(surface),
            final(self)@.sound(),
    {
        if self.window_for_surface(surface).is_none() {
            return;
        }
        self.unmaximize(surface);
    }

    /// Whether there is a window to close for another client.
    pub fn can_close(&self, surface: SurfaceId) -> (result: bool)
        requires
            self@.sound(),
        ensures
            result == self@.has_window(surface),
    {
        self.window_for_surface(surface).is_some()
    }
}

} // verus!
