//! How windows come and go: the marks that a surface carries until it is on the screen, the move
//! between the unmapped and the mapped, and the removal of what is dead.

use crate::state::lists;
use crate::state::lists::{
    add_window_to_workspace_list, remove_entry, remove_window_from_workspace_list,
    workspace_contains_window_entry, SurfaceId,
};
use crate::state::raven::{Raven, State};
use crate::state::space;
use crate::state::toplevel::Toplevel;
use crate::state::windows;
use vstd::prelude::*;

verus! {

broadcast use vstd::std_specs::hash::group_hash_axioms;

/// `dead` with the windows of `list` that are not alive and not there yet.
pub open spec fn noted(
    toplevels: Map<SurfaceId, Toplevel>,
    dead: Seq<SurfaceId>,
    list: Seq<SurfaceId>,
) -> Seq<SurfaceId>
    decreases list.len(),
{
    if list.len() == 0 {
        dead
    } else {
        let before = noted(toplevels, dead, list.drop_last());
        if windows::known(toplevels, list.last()).live || before.contains(list.last()) {
            before
        } else {
            before.push(list.last())
        }
    }
}

/// `dead` with the windows of all the lists that are not alive and not there yet.
pub open spec fn noted_all(
    toplevels: Map<SurfaceId, Toplevel>,
    dead: Seq<SurfaceId>,
    all: Seq<Seq<SurfaceId>>,
) -> Seq<SurfaceId>
    decreases all.len(),
{
    if all.len() == 0 {
        dead
    } else {
        noted(toplevels, noted_all(toplevels, dead, all.drop_last()), all.last())
    }
}

impl State {
    /// The windows that are kept but not alive, each once: those on workspaces first.
    pub open spec fn dead_windows(self) -> Seq<SurfaceId> {
        let mapped = noted_all(self.toplevels, seq![], self.mapped);
        let unmapped = noted_all(self.toplevels, mapped, self.unmapped);
        noted(self.toplevels, unmapped, space::stack(self.elements))
    }

    /// The state without anything kept of a window.
    pub open spec fn buried(self, window: SurfaceId) -> State {
        let gone = self.unmapped_window(window).without_window(window);
        State {
            recheck: gone.recheck.remove(window),
            recenter: gone.recenter.remove(window),
            ..gone.forgotten(window)
        }
    }

    /// The state without anything kept of these windows.
    pub open spec fn all_buried(self, windows: Seq<SurfaceId>) -> State
        decreases windows.len(),
    {
        if windows.len() == 0 {
            self
        } else {
            self.all_buried(windows.drop_last()).buried(windows.last())
        }
    }

    /// The state without anything kept of windows that are not alive.
    pub open spec fn pruned(self) -> State {
        self.all_buried(self.dead_windows())
    }
}

/// What is buried leaves the number of workspaces and the settings as they were.
pub proof fn burying_keeps_sound(state: State, windows: Seq<SurfaceId>)
    ensures
        state.sound() ==> state.all_buried(windows).sound(),
        state.all_buried(windows).settings == state.settings,
        state.all_buried(windows).current == state.current,
        state.all_buried(windows).outputs == state.outputs,
        state.all_buried(windows).layouts == state.layouts,
        state.all_buried(windows).toplevels == state.toplevels,
    decreases windows.len(),
{
    if windows.len() > 0 {
        burying_keeps_sound(state, windows.drop_last());
    }
}

impl Raven {
    /// Asks for a window to be centred again.
    pub fn queue_floating_recenter_for_surface(&mut self, surface: SurfaceId)
        ensures
            final(self)@ == (State {
                recenter: old(self)@.recenter.insert(surface),
                ..old(self)@
            }),
    {
        self.pending_floating_recenter_ids.insert(surface);
    }

    /// Takes back that a window is to be centred again.
    pub fn clear_floating_recenter_for_surface(&mut self, surface: SurfaceId)
        ensures
            final(self)@ == (State {
                recenter: old(self)@.recenter.remove(surface),
                ..old(self)@
            }),
    {
        self.pending_floating_recenter_ids.remove(&surface);
    }

    /// Takes back that the window rules are to be looked at again.
    pub fn clear_window_rule_recheck_for_surface(&mut self, surface: SurfaceId)
        ensures
            final(self)@ == (State { recheck: old(self)@.recheck.remove(surface), ..old(self)@ }),
    {
        self.pending_window_rule_recheck_ids.remove(&surface);
    }

    /// Asks for the first configure.
    pub fn queue_initial_configure_for_surface(&mut self, surface: SurfaceId)
        ensures
            final(self)@ == (State {
                initial_configure: old(self)@.initial_configure.insert(surface),
                ..old(self)@
            }),
    {
        self.pending_initial_configure_ids.insert(surface);
    }

    /// Takes back that the first configure is to be sent.
    pub fn clear_initial_configure_for_surface(&mut self, surface: SurfaceId)
        ensures
            final(self)@ == (State {
                initial_configure: old(self)@.initial_configure.remove(surface),
                ..old(self)@
            }),
    {
        self.pending_initial_configure_ids.remove(&surface);
    }

    /// Asks for the first configure to be sent when there is nothing else to do; whether that is
    /// still to be arranged.
    pub fn queue_initial_configure_idle_for_surface(&mut self, surface: SurfaceId) -> (arrange: bool)
        ensures
            arrange == (old(self)@.initial_configure.contains(surface)
                && !old(self)@.configure_idle.contains(surface)),
            final(self)@ == (if arrange {
                State { configure_idle: old(self)@.configure_idle.insert(surface), ..old(self)@ }
            } else {
                old(self)@
            }),
    {
        if !self.pending_initial_configure_ids.contains(&surface) {
            return false;
        }
        if self.pending_initial_configure_idle_ids.contains(&surface) {
            return false;
        }
        self.pending_initial_configure_idle_ids.insert(surface);
        true
    }

    /// Marks a surface as one that must not be on the screen yet.
    pub fn mark_surface_unmapped_toplevel(&mut self, surface: SurfaceId)
        ensures
            final(self)@ == (State {
                unmapped_marks: old(self)@.unmapped_marks.insert(surface),
                ..old(self)@
            }),
    {
        self.unmapped_toplevel_ids.insert(surface);
    }

    /// Takes the mark away.
    pub fn clear_surface_unmapped_toplevel(&mut self, surface: SurfaceId)
        ensures
            final(self)@ == (State {
                unmapped_marks: old(self)@.unmapped_marks.remove(surface),
                ..old(self)@
            }),
    {
        self.unmapped_toplevel_ids.remove(&surface);
    }

    /// Whether a surface carries the mark.
    pub fn is_surface_unmapped_toplevel(&self, surface: SurfaceId) -> (result: bool)
        ensures
            result == self@.unmapped_marks.contains(surface),
    {
        self.unmapped_toplevel_ids.contains(&surface)
    }

    /// Whether a window's surface carries the mark.
    pub fn window_is_unmapped_toplevel(&self, window: SurfaceId) -> (result: bool)
        ensures
            result == self@.unmapped_marks.contains(window),
    {
        self.is_surface_unmapped_toplevel(window)
    }

    /// Notes that a surface wants to be maximized once it is on the screen.
    pub fn queue_pending_unmapped_maximized_for_surface(&mut self, surface: SurfaceId)
        ensures
            final(self)@ == (State {
                pending_maximized: old(self)@.pending_maximized.insert(surface),
                ..old(self)@
            }),
    {
        self.pending_unmapped_maximized_ids.insert(surface);
    }

    /// Takes back that a surface wants to be maximized.
    pub fn clear_pending_unmapped_maximized_for_surface(&mut self, surface: SurfaceId)
        ensures
            final(self)@ == (State {
                pending_maximized: old(self)@.pending_maximized.remove(surface),
                ..old(self)@
            }),
    {
        self.pending_unmapped_maximized_ids.remove(&surface);
    }

    /// Whether a surface wants to be maximized once it is on the screen.
    pub fn has_pending_unmapped_maximized_for_surface(&self, surface: SurfaceId) -> (result: bool)
        ensures
            result == self@.pending_maximized.contains(surface),
    {
        self.pending_unmapped_maximized_ids.contains(&surface)
    }

    /// Notes that a surface wants to be fullscreen once it is on the screen.
    pub fn queue_pending_unmapped_fullscreen_for_surface(&mut self, surface: SurfaceId)
        ensures
            final(self)@ == (State {
                pending_fullscreen: old(self)@.pending_fullscreen.insert(surface),
                ..old(self)@
            }),
    {
        self.fullscreen.pending_unmapped_ids.insert(surface);
    }

    /// Takes back that a surface wants to be fullscreen.
    pub fn clear_pending_unmapped_fullscreen_for_surface(&mut self, surface: SurfaceId)
        ensures
            final(self)@ == (State {
                pending_fullscreen: old(self)@.pending_fullscreen.remove(surface),
                ..old(self)@
            }),
    {
        self.fullscreen.pending_unmapped_ids.remove(&surface);
    }

    /// Takes fullscreen away from a surface, on whatever workspace it has it.
    pub fn clear_fullscreen_owner_for_surface(&mut self, surface: SurfaceId)
        ensures
            final(self)@ == (State {
                owners: windows::disowned(old(self)@.owners, surface),
                ..old(self)@
            }),
    {
        let ghost before = self@;
        let mut index: usize = 0;
        while index < self.fullscreen.owners.len()
            invariant
                index <= self.fullscreen.owners.len(),
                self.fullscreen.owners.len() == before.owners.len(),
                self@ == (State { owners: self@.owners, ..before }),
                forall|i: int|
                    0 <= i < index ==> #[trigger] self@.owners[i] == windows::disowned(
                        before.owners,
                        surface,
                    )[i],
                forall|i: int|
                    index <= i < before.owners.len() ==> #[trigger] self@.owners[i]
                        == before.owners[i],
            decreases self.fullscreen.owners.len() - index,
        {
            if let Some(slot) = self.fullscreen.owners[index] {
                if slot.surface == surface {
                    self.fullscreen.owners.set(index, None);
                }
            }
            index = index + 1;
        }
        assert(self@.owners =~= windows::disowned(before.owners, surface));
    }

    /// Forgets how a surface was to come onto the screen.
    pub fn clear_pending_unmapped_state_for_surface(&mut self, surface: SurfaceId)
        ensures
            final(self)@ == old(self)@.forgotten(surface),
    {
        self.fullscreen.pending_unmapped_ids.remove(&surface);
        self.fullscreen.pending_transitions.remove(&surface);
        self.fullscreen.restore_states.remove(&surface);
        self.fullscreen.maximized.remove(&surface);
        self.clear_fullscreen_owner_for_surface(surface);
        self.clear_assigned_rect_for_surface(surface);
        self.clear_reported_size_for_surface(surface);
        self.pending_unmapped_maximized_ids.remove(&surface);
        self.pending_initial_configure_ids.remove(&surface);
        self.pending_initial_configure_idle_ids.remove(&surface);
        self.unmapped_toplevel_ids.remove(&surface);
    }

    /// Takes a window from every workspace.
    pub fn remove_window_from_workspaces(&mut self, window: SurfaceId)
        ensures
            final(self)@ == old(self)@.without_window(window),
    {
        self.clear_pending_unmapped_state_for_surface(window);
        remove_window_from_workspace_list(&mut self.workspaces, window);
        remove_window_from_workspace_list(&mut self.unmapped_workspaces, window);
        remove_entry(&mut self.floating_windows, window);
    }

    /// Moves a window to the mapped.
    pub fn promote_window_to_mapped_workspace(&mut self, window: SurfaceId)
        ensures
            final(self)@ == old(self)@.promoted(window),
    {
        let workspace_index = match remove_window_from_workspace_list(
            &mut self.unmapped_workspaces,
            window,
        ) {
            Some(index) => index,
            None => match self.workspace_index_for_mapped_window(window) {
                Some(index) => index,
                None => self.current_workspace,
            },
        };
        let _ = add_window_to_workspace_list(&mut self.workspaces, workspace_index, window);
    }

    /// Moves a window to the unmapped.
    pub fn demote_window_to_unmapped_workspace(&mut self, window: SurfaceId)
        ensures
            final(self)@ == old(self)@.demoted(window),
    {
        let workspace_index = match remove_window_from_workspace_list(
            &mut self.workspaces,
            window,
        ) {
            Some(index) => index,
            None => match self.workspace_index_for_unmapped_window(window) {
                Some(index) => index,
                None => self.current_workspace,
            },
        };
        let _ = add_window_to_workspace_list(
            &mut self.unmapped_workspaces,
            workspace_index,
            window,
        );
    }

    fn note_dead(&self, list: &Vec<SurfaceId>, dead: &mut Vec<SurfaceId>)
        ensures
            final(dead)@ == noted(self@.toplevels, old(dead)@, list@),
    {
        let ghost before = dead@;
        let mut index: usize = 0;
        assert(list@.take(0) =~= seq![]);
        while index < list.len()
            invariant
                index <= list.len(),
                dead@ == noted(self@.toplevels, before, list@.take(index as int)),
            decreases list.len() - index,
        {
            assert(list@.take(index + 1).drop_last() =~= list@.take(index as int));
            if !self.window_has_live_client(list[index]) && !workspace_contains_window_entry(
                dead,
                list[index],
            ) {
                dead.push(list[index]);
            }
            index = index + 1;
        }
        assert(list@.take(list@.len() as int) =~= list@);
    }

    fn note_all_dead(&self, all: &Vec<Vec<SurfaceId>>, dead: &mut Vec<SurfaceId>)
        ensures
            final(dead)@ == noted_all(self@.toplevels, old(dead)@, lists::lists(all@)),
    {
        let ghost before = dead@;
        let ghost plain = lists::lists(all@);
        let mut index: usize = 0;
        assert(plain.take(0) =~= seq![]);
        while index < all.len()
            invariant
                index <= all.len(),
                plain == lists::lists(all@),
                dead@ == noted_all(self@.toplevels, before, plain.take(index as int)),
            decreases all.len() - index,
        {
            assert(plain.take(index + 1).drop_last() =~= plain.take(index as int));
            assert(plain.take(index + 1).last() == all[index as int]@);
            self.note_dead(&all[index], dead);
            index = index + 1;
        }
        assert(plain.take(plain.len() as int) =~= plain);
    }

    /// The windows on the screen, from the bottom to the top.
    pub fn stacked_windows(&self) -> (windows: Vec<SurfaceId>)
        ensures
            windows@ == space::stack(self@.elements),
    {
        let mut windows: Vec<SurfaceId> = Vec::new();
        let mut index: usize = 0;
        while index < self.elements.len()
            invariant
                index <= self.elements.len(),
                windows@ =~= space::stack(self@.elements).take(index as int),
            decreases self.elements.len() - index,
        {
            windows.push(self.elements[index].window);
            index = index + 1;
        }
        windows
    }

    /// Forgets everything of the windows that are not alive.
    pub fn prune_windows_without_live_client(&mut self)
        ensures
            final(self)@ == old(self)@.pruned(),
    {
        let mut dead: Vec<SurfaceId> = Vec::new();
        self.note_all_dead(&self.workspaces, &mut dead);
        self.note_all_dead(&self.unmapped_workspaces, &mut dead);
        let shown = self.stacked_windows();
        self.note_dead(&shown, &mut dead);
        let ghost before = self@;
        let mut index: usize = 0;
        assert(dead@.take(0) =~= seq![]);
        while index < dead.len()
            invariant
                index <= dead.len(),
                self@ == before.all_buried(dead@.take(index as int)),
            decreases dead.len() - index,
        {
            assert(dead@.take(index + 1).drop_last() =~= dead@.take(index as int));
            let window = dead[index];
            self.unmap_window(window);
            self.remove_window_from_workspaces(window);
            self.clear_window_rule_recheck_for_surface(window);
            self.clear_floating_recenter_for_surface(window);
            self.clear_pending_unmapped_state_for_surface(window);
            index = index + 1;
        }
        assert(dead@.take(dead@.len() as int) =~= dead@);
    }
}

} // verus!
