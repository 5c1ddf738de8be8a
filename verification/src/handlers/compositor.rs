//! The commit of a surface.

use crate::handlers::layer_shell::LayerAction;
use crate::state::lists;
use crate::state::lists::SurfaceId;
use crate::state::raven::{Raven, State};
use crate::state::rules::{Metadata, Naming};
use vstd::prelude::*;

verus! {

broadcast use vstd::std_specs::hash::group_hash_axioms;

impl State {
    /// The state after the first commit of a buffer by a window that waited for it: it is mapped,
    /// and on the screen where its workspace is current.
    pub open spec fn first_mapped(self, surface: SurfaceId) -> State {
        let promoted = self.promoted(surface);
        let mapped = State {
            unmapped_marks: promoted.unmapped_marks.remove(surface),
            ..promoted
        };
        if mapped.workspace_of(surface) == Some(mapped.current) {
            mapped.mapped_to(surface, mapped.initial_rect(surface), false).pending_applied(
                surface,
            ).laid_out().0
        } else {
            mapped
        }
    }

    /// The state of a window whose root surface lost its buffer, as far as the window goes: it is off
    /// the screen and among the unmapped, and waits for its first configure again.
    pub open spec fn root_lost(self, surface: SurfaceId, naming: Naming) -> State {
        let demoted = self.unmapped_window(surface).demoted(surface);
        State {
            unmapped_marks: demoted.unmapped_marks.insert(surface),
            initial_configure: demoted.initial_configure.insert(surface),
            recheck: if self.defers_rules(naming) {
                demoted.recheck.insert(surface)
            } else {
                demoted.recheck
            },
            ..demoted
        }
    }

    /// The state after the commit of a window's root surface, as far as it comes onto the screen or
    /// leaves it.
    #[verifier::opaque]
    pub open spec fn root_committed(self, surface: SurfaceId, naming: Naming) -> State {
        if !self.has_window(surface) {
            self
        } else if self.unmapped_marks.contains(surface) {
            if self.toplevel(surface).has_buffer {
                self.first_mapped(surface)
            } else if self.initial_configure.contains(surface) {
                State { configure_idle: self.configure_idle.insert(surface), ..self }
            } else {
                self
            }
        } else if lists::listed(self.mapped, surface) && !self.toplevel(surface).has_buffer {
            self.root_lost(surface, naming).laid_out().0.refocused()
        } else {
            self
        }
    }

    /// Whether the first configure is to be sent when there is nothing else to do.
    pub open spec fn awaits_idle(self, surface: SurfaceId) -> bool {
        self.has_window(surface) && self.unmapped_marks.contains(surface) && !self.toplevel(
            surface,
        ).has_buffer && self.initial_configure.contains(surface) && !self.configure_idle.contains(
            surface,
        )
    }

    /// The state after a window on the screen has its first configure, where it had none.
    pub open spec fn greeted(self, surface: SurfaceId) -> State {
        if self.on_screen(surface) && !self.toplevel(surface).configured {
            self.configured(surface)
        } else {
            self
        }
    }

    /// The state after a commit in the tree of a window's root surface.
    #[verifier::opaque]
    pub open spec fn tree_committed(
        self,
        root: SurfaceId,
        is_root: bool,
        naming: Naming,
    ) -> State {
        let tracked_root = if is_root {
            self.root_committed(root, naming)
        } else {
            self
        };
        let ready = tracked_root.transition_applied(root);
        let greeted = if is_root {
            ready.greeted(root)
        } else {
            ready
        };
        greeted.rules_rechecked(root, naming).recentered(root)
    }

    /// The state after what follows from the commit of a layer surface.
    #[verifier::opaque]
    pub open spec fn layer_followed(self, action: LayerAction) -> State {
        let laid_out = if action.relayout {
            self.laid_out().0
        } else {
            self
        };
        match action.focus {
            Some(surface) => laid_out.focus_set(Some(surface)),
            None => laid_out,
        }
    }

    /// The state with what a commit calls for drawn anew: the output of the window, or all where it
    /// has none.
    pub open spec fn commit_redrawn(self, root: Option<SurfaceId>) -> State {
        match root {
            Some(root) => if self.has_window(root) {
                match self.overlapped(root) {
                    Some(output) => State {
                        redraw_outputs: self.redraw_outputs.insert(output),
                        ..self
                    },
                    None => State { redraw_all: true, ..self },
                }
            } else {
                State { redraw_all: true, ..self }
            },
            None => State { redraw_all: true, ..self },
        }
    }
}

impl Raven {
    /// Follows the commit of a window's root surface; whether the first configure is to be sent when
    /// there is nothing else to do.
    pub fn commit_root_surface(&mut self, surface: SurfaceId, metadata: &Metadata) -> (await_idle:
        bool)
        requires
            old(self)@.sound(),
        ensures
            final(self)@ == old(self)@.root_committed(surface, metadata@),
            await_idle == old(self)@.awaits_idle(surface),
            final(self)@.sound(),
    {
        proof {
            reveal(State::root_committed);
            lists::index_of_finds(self@.mapped, surface);
        }
        if self.window_for_surface(surface).is_none() {
            return false;
        }
        let has_buffer = self.window_root_surface_has_buffer(surface);
        if self.is_surface_unmapped_toplevel(surface) {
            if has_buffer {
                self.map_first_buffer(surface);
                return false;
            }
            assert(self@.configure_idle.contains(surface) ==> self@.configure_idle.insert(surface)
                =~= self@.configure_idle);
            return self.queue_initial_configure_idle_for_surface(surface);
        }
        if !has_buffer && self.workspace_index_for_mapped_window(surface).is_some() {
            self.unmap_window(surface);
            self.demote_window_to_unmapped_workspace(surface);
            self.mark_surface_unmapped_toplevel(surface);
            self.queue_initial_configure_for_surface(surface);
            self.queue_window_rule_recheck_for_surface(surface, metadata);
            assert(self@ == old(self)@.root_lost(surface, metadata@));
            let _ = self.apply_layout();
            self.refocus_visible_window();
        }
        false
    }

    fn map_first_buffer(&mut self, surface: SurfaceId)
        requires
            old(self)@.sound(),
        ensures
            final(self)@ == old(self)@.first_mapped(surface),
            final(self)@.sound(),
    {
        self.promote_window_to_mapped_workspace(surface);
        self.clear_surface_unmapped_toplevel(surface);
        let shown = match self.workspace_index_for_window(surface) {
            Some(index) => index == self.current_workspace,
            None => false,
        };
        if shown {
            self.map_window_to_initial_location(surface, false);
            self.maybe_apply_pending_unmapped_state_for_surface(surface);
            let _ = self.apply_layout();
        }
    }

    /// Follows a commit in the tree of a window's root surface; whether the first configure is to be
    /// sent when there is nothing else to do.
    pub fn commit_tree(&mut self, root: SurfaceId, is_root: bool, metadata: &Metadata) -> (await_idle:
        bool)
        requires
            old(self)@.sound(),
        ensures
            final(self)@ == old(self)@.tree_committed(root, is_root, metadata@),
            await_idle == (is_root && old(self)@.awaits_idle(root)),
            final(self)@.sound(),
    {
        proof {
            reveal(State::tree_committed);
        }
        let mut await_idle = false;
        if is_root {
            await_idle = self.commit_root_surface(root, metadata);
        }
        self.maybe_apply_pending_fullscreen_transition_for_surface(root);
        if is_root && self.is_window_mapped(root) && !self.toplevel(root).configured {
            self.send_configure(root);
        }
        self.maybe_apply_deferred_window_rules(root, metadata);
        self.maybe_recenter_floating_window_after_commit(root);
        await_idle
    }

    /// Follows the commit of a layer surface.
    pub fn follow_layer_commit(&mut self, action: LayerAction)
        requires
            old(self)@.sound(),
        ensures
            final(self)@ == old(self)@.layer_followed(action),
            final(self)@.sound(),
    {
        proof {
            reveal(State::layer_followed);
        }
        if action.relayout {
            let _ = self.apply_layout();
        }
        if let Some(surface) = action.focus {
            self.set_keyboard_focus(Some(surface));
        }
    }

    /// Asks for what a commit calls for to be drawn anew; `root` is there unless the commit waits
    /// for that of a parent.
    pub fn redraw_for_commit(&mut self, root: Option<SurfaceId>)
        requires
            old(self)@.sound(),
        ensures
            final(self)@ == old(self)@.commit_redrawn(root),
            final(self)@.sound(),
    {
        if let Some(root) = root {
            if self.window_for_surface(root).is_some() {
                if let Some(output) = self.output_for_element(root) {
                    self.redraw_outputs.insert(output);
                    return;
                }
            }
        }
        self.redraw_all = true;
    }
}

} // verus!
