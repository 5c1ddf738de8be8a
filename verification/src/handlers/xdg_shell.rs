//! The requests of toplevels.

use crate::state::lists;
use crate::state::lists::SurfaceId;
use crate::state::raven::{Raven, State};
use crate::state::rules;
use crate::state::rules::{Metadata, Naming};
use crate::state::space;
use crate::state::space::unmap_elem;
use crate::state::toplevel::{DecorationMode, OutputId, ToplevelState};
use vstd::prelude::*;

verus! {

broadcast use vstd::std_specs::hash::group_hash_axioms;

/// Who draws the decorations of a window, as the older protocol for that puts it.
#[derive(Clone, Copy, Debug, PartialEq, Eq, Structural)]
pub enum KdeMode {
    /// Nobody.
    Bare,
    Client,
    Server,
}

/// What a client that asks by the older protocol is answered: the compositor draws the decorations
/// where clients are not to, and else it is as the client asks.
pub fn kde_decoration_mode(no_csd: bool, requested: KdeMode) -> (mode: KdeMode)
    ensures
        mode == (if no_csd {
            KdeMode::Server
        } else {
            requested
        }),
{
    if no_csd {
        KdeMode::Server
    } else {
        requested
    }
}

/// Whether a new client gets to see the protocols for decorations. Without them it draws its own.
pub fn can_view_decoration_globals(no_csd: bool) -> (visible: bool)
    ensures
        visible == no_csd,
{
    no_csd
}

impl State {
    /// The state with a surface told what it is asked for, where it has had its first configure.
    pub open spec fn answered(self, surface: SurfaceId) -> State {
        if self.toplevel(surface).configured {
            self.configured(surface)
        } else {
            self
        }
    }

    /// The state with a surface told what it is asked for, where it has had its first configure and
    /// there is something to tell.
    pub open spec fn answered_if_changed(self, surface: SurfaceId) -> State {
        if self.toplevel(surface).configured {
            self.configured_if_changed(surface)
        } else {
            self
        }
    }

    /// The state with a new window kept among the unmapped: it waits for its first configure, and
    /// is not on the screen.
    pub open spec fn new_window_kept(self, surface: SurfaceId, naming: Naming) -> State {
        let decision = self.decision(naming);
        let floating = self.effective_floating(surface, naming, decision.floating);
        let decorated = self.decorated(surface, self.settings.general.no_csd && !floating);
        let kept = State {
            unmapped: lists::added(
                decorated.unmapped,
                decision.workspace_index as int,
                surface,
            ),
            unmapped_marks: decorated.unmapped_marks.insert(surface),
            initial_configure: decorated.initial_configure.insert(surface),
            ..decorated
        };
        let sized = kept.rule_sized(surface, decision).with_floating(surface, floating);
        if floating {
            State { recenter: sized.recenter.insert(surface), ..sized }
        } else {
            sized
        }
    }

    /// Whether the rules are to be looked at again once more is known of a window.
    pub open spec fn defers_rules(self, naming: Naming) -> bool {
        rules::naming_gap(self.settings.window_rules, naming) || !rules::floating_ruled(
            self.settings.window_rules,
            naming,
        )
    }

    /// The state with a new window.
    #[verifier::opaque]
    pub open spec fn new_window(self, surface: SurfaceId, naming: Naming) -> State {
        if self.has_window(surface) {
            self.configured(surface)
        } else {
            let decision = self.decision(naming);
            let kept = self.new_window_kept(surface, naming);
            let full = if decision.fullscreen {
                kept.fullscreen_entered(surface, None)
            } else {
                kept
            };
            if self.defers_rules(naming) {
                State { recheck: full.recheck.insert(surface), ..full }
            } else {
                let laid_out = full.laid_out().0;
                if decision.workspace_index == self.current && decision.focus {
                    laid_out.focus_set(Some(surface))
                } else {
                    laid_out
                }
            }
        }
    }

    /// The state with a window no longer floating, and not waiting to be centred.
    pub open spec fn settled(self, surface: SurfaceId) -> State {
        let set = self.with_floating(surface, false);
        State { recenter: set.recenter.remove(surface), ..set }
    }

    /// The state with a window maximized, or to be so once it is on the screen.
    pub open spec fn maximize_noted(self, surface: SurfaceId) -> State {
        let settled = self.settled(surface);
        State {
            pending_maximized: if self.on_screen(surface) {
                settled.pending_maximized.remove(surface)
            } else {
                settled.pending_maximized.insert(surface)
            },
            ..settled
        }.maximized_set(surface, true)
    }

    /// The state after a client asks for its window to be maximized.
    pub open spec fn maximize_requested(self, surface: SurfaceId) -> State {
        if !self.has_window(surface) {
            self.answered(surface)
        } else {
            self.maximize_noted(surface).raised(surface)
        }
    }

    /// The state with a window not maximized, and the screen laid out where it is there.
    pub open spec fn unmaximized(self, surface: SurfaceId) -> State {
        let set = State {
            pending_maximized: self.pending_maximized.remove(surface),
            ..self
        }.maximized_set(surface, false);
        if set.on_screen(surface) {
            set.laid_out().0
        } else {
            set
        }
    }

    /// The state after a client asks for its window not to be maximized.
    pub open spec fn unmaximize_requested(self, surface: SurfaceId) -> State {
        if !self.has_window(surface) {
            self.answered(surface)
        } else {
            self.unmaximized(surface)
        }
    }

    /// The state with a window that is not on the screen asked to be fullscreen.
    pub open spec fn fullscreen_awaited(self, surface: SurfaceId) -> State {
        State {
            pending_fullscreen: self.pending_fullscreen.insert(surface),
            ..self
        }.with_pending(
            surface,
            ToplevelState {
                fullscreen: true,
                maximized: false,
                ..self.toplevel(surface).pending
            },
        )
    }

    /// The state after a client asks for its window to be fullscreen. The client is always
    /// answered.
    #[verifier::opaque]
    pub open spec fn fullscreen_requested(self, surface: SurfaceId) -> State {
        if !self.has_window(surface) {
            self.answered_if_changed(surface)
        } else {
            let settled = self.settled(surface);
            if !self.on_screen(surface) {
                settled.fullscreen_awaited(surface).answered(surface)
            } else {
                let clear = State {
                    pending_fullscreen: settled.pending_fullscreen.remove(surface),
                    ..settled
                };
                let entered = clear.fullscreen_entered(surface, None);
                if clear.entering_matters(surface, None) {
                    entered.raised(surface).laid_out().0
                } else {
                    entered.fullscreen_set(surface, true, None)
                }
            }
        }
    }

    /// The state with a window that is not on the screen asked not to be fullscreen.
    pub open spec fn windowed_awaited(self, surface: SurfaceId) -> State {
        let pending = self.toplevel(surface).pending;
        self.with_pending(
            surface,
            ToplevelState {
                fullscreen: false,
                maximized: pending.maximized || self.pending_maximized.contains(surface),
                ..pending
            },
        )
    }

    /// The state after a client asks for its window not to be fullscreen. The client is always
    /// answered.
    #[verifier::opaque]
    pub open spec fn unfullscreen_requested(self, surface: SurfaceId) -> State {
        if !self.has_window(surface) {
            self.answered_if_changed(surface)
        } else {
            let clear = State {
                pending_fullscreen: self.pending_fullscreen.remove(surface),
                ..self
            };
            if !self.on_screen(surface) {
                clear.windowed_awaited(surface).answered(surface)
            } else if clear.owns_workspace(surface) {
                clear.fullscreen_exited(surface).laid_out().0
            } else {
                clear.fullscreen_set(surface, false, None)
            }
        }
    }

    /// The state with these outputs to be drawn anew, or all where there are none.
    pub open spec fn redraw_asked(self, outputs: Seq<OutputId>) -> State {
        if outputs.len() == 0 {
            State { redraw_all: true, ..self }
        } else {
            State { redraw_outputs: self.redraw_outputs.union(outputs.to_set()), ..self }
        }
    }

    /// The state after a toplevel is destroyed; `outputs` are those that its window was on.
    #[verifier::opaque]
    pub open spec fn destroyed(self, surface: SurfaceId, outputs: Seq<OutputId>) -> State {
        let forgotten = self.forgotten(surface);
        let cleared = State {
            recheck: forgotten.recheck.remove(surface),
            recenter: forgotten.recenter.remove(surface),
            ..forgotten
        };
        if !self.has_window(surface) {
            cleared
        } else if self.unmapped_marks.contains(surface) || !self.on_screen(surface) {
            cleared.without_window(surface)
        } else {
            State {
                elements: space::lifted(cleared.elements, surface),
                ..cleared
            }.without_window(surface).laid_out().0.refocused().redraw_asked(outputs)
        }
    }

    /// The state with a toplevel told who draws its decorations.
    pub open spec fn decoration_told(
        self,
        surface: SurfaceId,
        mode: DecorationMode,
        tiled: bool,
    ) -> State {
        self.with_pending(
            surface,
            ToplevelState {
                decoration_mode: Some(mode),
                ..self.toplevel(surface).pending.tiled(tiled)
            },
        ).answered(surface)
    }
}

impl Raven {
    /// Takes a new toplevel in.
    pub fn new_toplevel(&mut self, surface: SurfaceId, metadata: &Metadata)
        requires
            old(self)@.sound(),
        ensures
            final(self)@ == old(self)@.new_window(surface, metadata@),
            final(self)@.sound(),
    {
        proof {
            reveal(State::new_window);
        }
        if self.window_for_surface(surface).is_some() {
            self.send_configure(surface);
            return;
        }
        let decision = self.resolve_window_rules_for_surface(metadata);
        let deferred = self.should_defer_window_rules_for_surface(metadata);
        let visible = decision.workspace_index == self.current_workspace;
        self.keep_new_window(surface, metadata);
        if decision.fullscreen {
            let _ = self.enter_fullscreen_window(surface);
        }
        if deferred {
            self.pending_window_rule_recheck_ids.insert(surface);
        } else {
            let _ = self.apply_layout();
            if visible && decision.focus {
                self.set_keyboard_focus(Some(surface));
            }
        }
    }

    fn keep_new_window(&mut self, surface: SurfaceId, metadata: &Metadata)
        requires
            old(self)@.sound(),
        ensures
            final(self)@ == old(self)@.new_window_kept(surface, metadata@),
            final(self)@.sound(),
    {
        let decision = self.resolve_window_rules_for_surface(metadata);
        let (floating, _, _, _) = self.resolve_effective_floating_for_surface(
            surface,
            metadata,
            decision.floating,
        );
        let mode = self.preferred_decoration_mode();
        let no_csd = self.config.no_csd;
        let pending = self.toplevel(surface).pending.set_tiled_state(no_csd && !floating);
        self.set_pending_state(
            surface,
            ToplevelState { decoration_mode: Some(mode), ..pending },
        );
        self.add_unmapped_window_to_workspace(decision.workspace_index, surface);
        self.mark_surface_unmapped_toplevel(surface);
        self.queue_initial_configure_for_surface(surface);
        self.apply_window_rule_size_to_window(surface, &decision);
        self.set_window_floating(surface, floating);
        if floating {
            self.queue_floating_recenter_for_surface(surface);
        }
    }

    /// A client asks for its window to be maximized.
    pub fn maximize_request(&mut self, surface: SurfaceId)
        requires
            old(self)@.sound(),
        ensures
            final(self)@ == old(self)@.maximize_requested(surface),
            final(self)@.sound(),
    {
        if self.window_for_surface(surface).is_none() {
            if self.toplevel(surface).configured {
                self.send_configure(surface);
            }
            return;
        }
        self.note_maximized(surface);
        if self.is_window_mapped(surface) {
            self.raise_element(surface);
        }
    }

    /// Maximizes a window, or notes that it is to be so once it is on the screen.
    pub fn note_maximized(&mut self, surface: SurfaceId)
        requires
            old(self)@.sound(),
        ensures
            final(self)@ == old(self)@.maximize_noted(surface),
            final(self)@.sound(),
    {
        self.set_window_floating(surface, false);
        self.clear_floating_recenter_for_surface(surface);
        if self.is_window_mapped(surface) {
            self.clear_pending_unmapped_maximized_for_surface(surface);
        } else {
            self.queue_pending_unmapped_maximized_for_surface(surface);
        }
        self.set_window_maximized_state(surface, true);
    }

    /// Makes a window not maximized.
    pub fn unmaximize(&mut self, surface: SurfaceId)
        requires
            old(self)@.sound(),
        ensures
            final(self)@ == old(self)@.unmaximized(surface),
            final(self)@.sound(),
    {
        self.clear_pending_unmapped_maximized_for_surface(surface);
        self.set_window_maximized_state(surface, false);
        if self.is_window_mapped(surface) {
            let _ = self.apply_layout();
        }
    }

    /// A client asks for its window not to be maximized.
    pub fn unmaximize_request(&mut self, surface: SurfaceId)
        requires
            old(self)@.sound(),
        ensures
            final(self)@ == old(self)@.unmaximize_requested(surface),
            final(self)@.sound(),
    {
        if self.window_for_surface(surface).is_none() {
            if self.toplevel(surface).configured {
                self.send_configure(surface);
            }
            return;
        }
        self.unmaximize(surface);
    }

    /// Asks a window that is not on the screen to be fullscreen.
    pub fn await_fullscreen(&mut self, surface: SurfaceId)
        ensures
            final(self)@ == old(self)@.fullscreen_awaited(surface),
    {
        self.queue_pending_unmapped_fullscreen_for_surface(surface);
        let pending = self.toplevel(surface).pending;
        self.set_pending_state(
            surface,
            ToplevelState { fullscreen: true, maximized: false, ..pending },
        );
    }

    /// A client asks for its window to be fullscreen.
    pub fn fullscreen_request(&mut self, surface: SurfaceId)
        requires
            old(self)@.sound(),
        ensures
            final(self)@ == old(self)@.fullscreen_requested(surface),
            final(self)@.sound(),
    {
        proof {
            reveal(State::fullscreen_requested);
        }
        if self.window_for_surface(surface).is_none() {
            if self.toplevel(surface).configured {
                let _ = self.send_pending_configure(surface);
            }
            return;
        }
        self.set_window_floating(surface, false);
        self.clear_floating_recenter_for_surface(surface);
        if !self.is_window_mapped(surface) {
            self.await_fullscreen(surface);
            if self.toplevel(surface).configured {
                self.send_configure(surface);
            }
            return;
        }
        self.clear_pending_unmapped_fullscreen_for_surface(surface);
        if self.enter_fullscreen_window(surface) {
            self.raise_element(surface);
            let _ = self.apply_layout();
        } else {
            self.set_window_fullscreen_state_for_output(surface, true, None);
        }
    }

    /// Asks a window that is not on the screen not to be fullscreen.
    pub fn await_windowed(&mut self, surface: SurfaceId)
        ensures
            final(self)@ == old(self)@.windowed_awaited(surface),
    {
        let pending = self.toplevel(surface).pending;
        let maximized = pending.maximized || self.has_pending_unmapped_maximized_for_surface(
            surface,
        );
        self.set_pending_state(surface, ToplevelState { fullscreen: false, maximized, ..pending });
    }

    /// A client asks for its window not to be fullscreen.
    pub fn unfullscreen_request(&mut self, surface: SurfaceId)
        requires
            old(self)@.sound(),
        ensures
            final(self)@ == old(self)@.unfullscreen_requested(surface),
            final(self)@.sound(),
    {
        proof {
            reveal(State::unfullscreen_requested);
        }
        if self.window_for_surface(surface).is_none() {
            if self.toplevel(surface).configured {
                let _ = self.send_pending_configure(surface);
            }
            return;
        }
        self.clear_pending_unmapped_fullscreen_for_surface(surface);
        if !self.is_window_mapped(surface) {
            self.await_windowed(surface);
            if self.toplevel(surface).configured {
                self.send_configure(surface);
            }
            return;
        }
        if self.exit_fullscreen_window(surface) {
            let _ = self.apply_layout();
        } else {
            self.set_window_fullscreen_state_for_output(surface, false, None);
        }
    }

    /// Asks for these outputs to be drawn anew, or for all where there are none.
    pub fn queue_redraw_for_outputs_or_all(&mut self, outputs: &Vec<OutputId>)
        ensures
            final(self)@ == old(self)@.redraw_asked(outputs@),
    {
        let ghost before = self@;
        let mut index: usize = 0;
        assert(outputs@.take(0).to_set() =~= Set::empty());
        while index < outputs.len()
            invariant
                index <= outputs.len(),
                self@ == (State {
                    redraw_outputs: before.redraw_outputs.union(
                        outputs@.take(index as int).to_set(),
                    ),
                    ..before
                }),
            decreases outputs.len() - index,
        {
            proof {
                let taken = outputs@.take(index as int);
                let next = outputs@.take(index + 1);
                assert(next =~= taken.push(outputs@[index as int]));
                assert forall|id: OutputId| #[trigger]
                    next.to_set().contains(id) <==> taken.to_set().contains(id) || id
                        == outputs@[index as int] by {
                    if taken.contains(id) {
                        let k = choose|k: int| 0 <= k < taken.len() && taken[k] == id;
                        assert(next[k] == id);
                    }
                    if id == outputs@[index as int] {
                        assert(next[index as int] == id);
                    }
                }
                assert(before.redraw_outputs.union(next.to_set()) =~= before.redraw_outputs.union(
                    taken.to_set(),
                ).insert(outputs@[index as int]));
            }
            self.redraw_outputs.insert(outputs[index]);
            index = index + 1;
        }
        assert(outputs@.take(outputs@.len() as int) =~= outputs@);
        if outputs.len() == 0 {
            assert(before.redraw_outputs.union(outputs@.to_set()) =~= before.redraw_outputs);
            self.redraw_all = true;
        }
    }

    /// A toplevel is destroyed; `outputs` are those that its window was on.
    pub fn toplevel_destroyed(&mut self, surface: SurfaceId, outputs: &Vec<OutputId>)
        requires
            old(self)@.sound(),
        ensures
            final(self)@ == old(self)@.destroyed(surface, outputs@),
            final(self)@.sound(),
    {
        proof {
            reveal(State::destroyed);
        }
        let was_unmapped = self.is_surface_unmapped_toplevel(surface);
        let window = self.window_for_surface(surface);
        self.clear_pending_unmapped_state_for_surface(surface);
        self.clear_window_rule_recheck_for_surface(surface);
        self.clear_floating_recenter_for_surface(surface);
        if window.is_none() {
            return;
        }
        if was_unmapped || !self.is_window_mapped(surface) {
            self.remove_window_from_workspaces(surface);
            return;
        }
        unmap_elem(&mut self.elements, surface);
        self.remove_window_from_workspaces(surface);
        let _ = self.apply_layout();
        self.refocus_visible_window();
        self.queue_redraw_for_outputs_or_all(outputs);
    }

    fn tell_decoration(&mut self, surface: SurfaceId, mode: DecorationMode, tiled: bool)
        ensures
            final(self)@ == old(self)@.decoration_told(surface, mode, tiled),
    {
        let pending = self.toplevel(surface).pending.set_tiled_state(tiled);
        self.set_pending_state(
            surface,
            ToplevelState { decoration_mode: Some(mode), ..pending },
        );
        if self.toplevel(surface).configured {
            self.send_configure(surface);
        }
    }

    /// A client takes up the decoration protocol for a toplevel.
    pub fn new_decoration(&mut self, surface: SurfaceId)
        ensures
            final(self)@ == old(self)@.decoration_told(
                surface,
                old(self)@.decoration(),
                old(self)@.decoration() == DecorationMode::ServerSide,
            ),
    {
        let mode = self.preferred_decoration_mode();
        self.tell_decoration(surface, mode, mode == DecorationMode::ServerSide);
    }

    /// A client asks who is to draw the decorations of a toplevel. It gets what it asks for, unless
    /// clients are not to draw them at all: then the compositor does, whatever is asked for.
    pub fn request_mode(&mut self, surface: SurfaceId, mode: DecorationMode)
        ensures
            final(self)@ == old(self)@.decoration_told(
                surface,
                if old(self)@.settings.general.no_csd {
                    DecorationMode::ServerSide
                } else {
                    mode
                },
                mode == DecorationMode::ServerSide || old(self)@.settings.general.no_csd,
            ),
    {
        let tiled = mode == DecorationMode::ServerSide || self.config.no_csd;
        let told = if self.config.no_csd {
            DecorationMode::ServerSide
        } else {
            mode
        };
        self.tell_decoration(surface, told, tiled);
    }

    /// A client leaves it open who is to draw the decorations of a toplevel.
    pub fn unset_mode(&mut self, surface: SurfaceId)
        ensures
            final(self)@ == old(self)@.decoration_told(
                surface,
                old(self)@.decoration(),
                old(self)@.decoration() == DecorationMode::ServerSide,
            ),
    {
        self.new_decoration(surface);
    }
}

/// Where clients are not to draw decorations, no request of theirs changes that: whatever a client
/// asks for, it is told that the compositor draws them.
pub proof fn decorations_stay_with_compositor(state: State, surface: SurfaceId, mode: DecorationMode)
    requires
        state.settings.general.no_csd,
    ensures
        state.decoration() == DecorationMode::ServerSide,
        state.decoration_told(
            surface,
            if state.settings.general.no_csd {
                DecorationMode::ServerSide
            } else {
                mode
            },
            mode == DecorationMode::ServerSide || state.settings.general.no_csd,
        ).toplevel(surface).pending.decoration_mode == Some(DecorationMode::ServerSide),
{
}

} // verus!
