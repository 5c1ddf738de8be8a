//! The layout of the screen: every window of the current workspace gets its place.

use crate::errors;
use crate::errors::{CompositorError, Failure};
use crate::geometry;
use crate::geometry::{place_tile, Rectangle, WindowGeometry};
use crate::state::lists::{occurs_before, SurfaceId};
use crate::state::raven::{Raven, State};
use crate::state::space;
use crate::state::space::{arrange, element_location, Element};
use crate::state::toplevel::{OutputId, PendingFullscreenTransition, WindowFullscreenMode};
use vstd::prelude::*;

verus! {

broadcast use vstd::std_specs::hash::group_hash_axioms;

/// The failure where there is no output.
pub open spec fn no_output() -> Failure {
    Failure::Backend("no output"@)
}

/// The failure where the first output has no geometry.
pub open spec fn no_output_geometry() -> Failure {
    Failure::Backend("no output geometry"@)
}

impl State {
    /// Those of `list` that float, or those that do not.
    pub open spec fn sorted_out(self, list: Seq<SurfaceId>, floating: bool) -> Seq<SurfaceId>
        decreases list.len(),
    {
        if list.len() == 0 {
            list
        } else {
            let before = self.sorted_out(list.drop_last(), floating);
            if self.floats(list.last()) == floating {
                before.push(list.last())
            } else {
                before
            }
        }
    }

    /// Those of `list` whose root surface has a buffer.
    pub open spec fn buffered(self, list: Seq<SurfaceId>) -> Seq<SurfaceId>
        decreases list.len(),
    {
        if list.len() == 0 {
            list
        } else {
            let before = self.buffered(list.drop_last());
            if self.toplevel(list.last()).has_buffer {
                before.push(list.last())
            } else {
                before
            }
        }
    }

    /// The state with these windows raised, one after the other.
    pub open spec fn each_raised(self, list: Seq<SurfaceId>) -> State
        decreases list.len(),
    {
        if list.len() == 0 {
            self
        } else {
            self.each_raised(list.drop_last()).raised(list.last())
        }
    }

    /// The state with the floating windows above the tiled ones, each group in its order; nothing
    /// changes while the current workspace has a fullscreen window.
    pub open spec fn restacked(self) -> State {
        let stack = space::stack(self.elements);
        let tiled = self.sorted_out(stack, false);
        let floating = self.sorted_out(stack, true);
        if stack.len() < 2 || self.owner_window(self.current as int) is Some || tiled.len() == 0
            || floating.len() == 0 {
            self
        } else {
            self.each_raised(tiled).each_raised(floating)
        }
    }

    /// The state with a window raised within the floating ones or the tiled ones.
    pub open spec fn raised_in_layer(self, window: SurfaceId) -> State {
        self.raised(window).restacked()
    }

    /// The state with those of `list` on the screen that should be.
    pub open spec fn all_shown(self, list: Seq<SurfaceId>) -> State
        decreases list.len(),
    {
        if list.len() == 0 {
            self
        } else {
            let before = self.all_shown(list.drop_last());
            let window = list.last();
            if before.on_screen(window) || before.unmapped_marks.contains(window)
                || !before.toplevel(window).has_buffer {
                before
            } else {
                before.mapped_to(window, before.initial_rect(window), false)
            }
        }
    }

    /// The state after the fullscreen window of the current workspace is laid out.
    pub open spec fn owner_laid_out(self, window: SurfaceId, target: Rectangle) -> State {
        let place = space::place_of(self.elements, window);
        let resize = self.toplevel(window).geometry != target.size;
        let reconfigure = self.assigned_rect(window) != Some(target);
        let given = self.with_assigned(window, target);
        let told = if resize || reconfigure {
            given.fullscreen_asked(window, true, Some(target))
        } else {
            given
        };
        let shown = if place is None || resize || place != Some(target.loc) {
            told.mapped_to(window, target, false)
        } else {
            told
        };
        shown.raised(window)
    }

    /// The state after the fullscreen window of the current workspace is laid out, where it has one
    /// that is meant for this output; and whether it has.
    pub open spec fn fullscreen_laid_out(self, output: OutputId) -> (State, bool) {
        match self.owner_window(self.current as int) {
            None => (self, false),
            Some(window) => if self.unmapped_marks.contains(window) || !self.toplevel(
                window,
            ).has_buffer {
                (self, false)
            } else {
                match self.preferred_output(window) {
                    None => (self.owner_cleared(self.current as int, true), false),
                    Some(target_output) => if target_output != output {
                        (self, false)
                    } else {
                        match self.exclusive_rect(window) {
                            None => (self.owner_cleared(self.current as int, true), false),
                            Some(target) => (self.owner_laid_out(window, target), true),
                        }
                    },
                }
            },
        }
    }

    /// The state with the floating windows of `list` given the rectangles that they have.
    pub open spec fn floating_laid_out(self, list: Seq<SurfaceId>) -> State
        decreases list.len(),
    {
        if list.len() == 0 {
            self
        } else {
            let before = self.floating_laid_out(list.drop_last());
            let window = list.last();
            if before.unmapped_marks.contains(window) {
                before
            } else {
                match before.shown_at(window) {
                    Some(rect) => before.with_assigned(window, rect),
                    None => before.with_assigned(window, before.initial_rect(window)).mapped_to(
                        window,
                        before.initial_rect(window),
                        false,
                    ),
                }
            }
        }
    }

    /// The state with a window put into its tile.
    pub open spec fn tile_laid_out(
        self,
        window: SurfaceId,
        area: Rectangle,
        tile: WindowGeometry,
    ) -> State {
        let target = geometry::placed(area, tile);
        let place = space::place_of(self.elements, window);
        let resize = self.toplevel(window).geometry != target.size;
        let given = self.with_assigned(window, target);
        let told = if place is None || resize {
            given.tiled_asked(window, target.size, area.size)
        } else {
            given
        };
        if place is None || resize || place != Some(target.loc) {
            told.mapped_to(window, target, false)
        } else {
            told
        }
    }

    /// The state with the first `count` windows put into their tiles.
    pub open spec fn tiles_laid_out(
        self,
        windows: Seq<SurfaceId>,
        area: Rectangle,
        tiles: Seq<WindowGeometry>,
        count: nat,
    ) -> State
        decreases count,
    {
        if count == 0 {
            self
        } else {
            self.tiles_laid_out(windows, area, tiles, (count - 1) as nat).tile_laid_out(
                windows[count - 1],
                area,
                tiles[count - 1],
            )
        }
    }

    /// The state with the windows of the screen laid out: the floating ones keep their place, the
    /// others get the tiles of the layout.
    pub open spec fn windows_laid_out(self, windows: Seq<SurfaceId>, area: Rectangle) -> State {
        let placed = self.floating_laid_out(self.sorted_out(windows, true));
        let tiled = placed.sorted_out(windows, false);
        if tiled.len() == 0 {
            placed.restacked()
        } else {
            let tiles = space::tiles_for(placed.layouts, area.size, tiled.len());
            let count = if tiled.len() < tiles.len() {
                tiled.len()
            } else {
                tiles.len()
            };
            placed.tiles_laid_out(tiled, area, tiles, count).restacked()
        }
    }

    /// The elements without a second one of a window whose root surface has a buffer.
    pub open spec fn single(self, elements: Seq<Element>) -> Seq<Element>
        decreases elements.len(),
    {
        if elements.len() == 0 {
            elements
        } else {
            let before = self.single(elements.drop_last());
            let window = elements.last().window;
            if self.toplevel(window).has_buffer && space::stack(elements.drop_last()).contains(
                window,
            ) {
                before
            } else {
                before.push(elements.last())
            }
        }
    }

    /// The state without the rectangles and sizes of the windows that occur twice in `list`.
    pub open spec fn doubles_cleared(self, list: Seq<SurfaceId>) -> State
        decreases list.len(),
    {
        if list.len() == 0 {
            self
        } else {
            let before = self.doubles_cleared(list.drop_last());
            if list.drop_last().contains(list.last()) {
                State {
                    assigned: before.assigned.remove(list.last()),
                    reported: before.reported.remove(list.last()),
                    ..before
                }
            } else {
                before
            }
        }
    }

    /// The state with each window with a buffer on the screen once. One that was there twice would
    /// get two tiles.
    pub open spec fn singled(self) -> State {
        State {
            elements: self.single(self.elements),
            ..self.doubles_cleared(self.buffered(space::stack(self.elements)))
        }
    }

    /// The state after a layout, and whether it failed.
    #[verifier::opaque]
    pub open spec fn laid_out(self) -> (State, Result<(), Failure>) {
        let pruned = self.pruned();
        let shown = pruned.all_shown(pruned.mapped[pruned.current as int]).singled();
        let windows = shown.buffered(space::stack(shown.elements));
        if windows.len() == 0 {
            (shown, Ok(()))
        } else if shown.outputs.len() == 0 {
            (shown, Err(no_output()))
        } else {
            match shown.outputs[0].geometry {
                None => (shown, Err(no_output_geometry())),
                Some(whole) => {
                    let (owned, done) = shown.fullscreen_laid_out(shown.outputs[0].id);
                    if done {
                        (owned, Ok(()))
                    } else {
                        let area = geometry::usable(shown.outputs[0].work_area, whole);
                        (owned.windows_laid_out(windows, area), Ok(()))
                    }
                },
            }
        }
    }

    /// The state after a change of fullscreen that the client has followed.
    #[verifier::opaque]
    pub open spec fn transition_applied(self, surface: SurfaceId) -> State {
        if !self.transitions.contains_key(surface) {
            self
        } else if !self.has_window(surface) {
            self.transition_cleared(surface)
        } else if !self.on_screen(surface) || !self.transition_ready(
            surface,
            self.transitions[surface],
        ) {
            self
        } else {
            let clear = self.transition_cleared(surface);
            match self.transitions[surface] {
                PendingFullscreenTransition::Enter { requested_output } => {
                    let entered = clear.fullscreen_entered(surface, requested_output);
                    if clear.entering_matters(surface, requested_output) {
                        entered.raised(surface).laid_out().0
                    } else {
                        entered.laid_out().0
                    }
                },
                PendingFullscreenTransition::Exit => if clear.owns_workspace(surface) {
                    clear.exit_finalized(surface).laid_out().0
                } else {
                    clear
                },
            }
        }
    }

    /// The state after a window that waited for the screen takes on what it asked for meanwhile.
    #[verifier::opaque]
    pub open spec fn pending_applied(self, surface: SurfaceId) -> State {
        if !self.pending_fullscreen.contains(surface) && !self.pending_maximized.contains(
            surface,
        ) {
            self
        } else if !self.has_window(surface) {
            self.forgotten(surface)
        } else if !self.on_screen(surface) {
            self
        } else {
            let clear = State {
                pending_fullscreen: self.pending_fullscreen.remove(surface),
                pending_maximized: self.pending_maximized.remove(surface),
                ..self
            };
            if clear.exclusive(surface) {
                clear.raised(surface).laid_out().0
            } else {
                clear
            }
        }
    }

    /// The state after the focused window's fullscreen is toggled, and whether that failed.
    #[verifier::opaque]
    pub open spec fn fullscreen_toggled(self) -> (State, Result<(), Failure>) {
        match self.keyboard_focus {
            None => (self, Ok(())),
            Some(window) => if !self.has_window(window) {
                (self, Ok(()))
            } else if self.owns_workspace(window) {
                if self.exits_at_once(window) {
                    self.exit_requested(window).laid_out()
                } else {
                    (self.exit_requested(window), Ok(()))
                }
            } else if self.enters_at_once(window, None) {
                self.enter_requested(window, None).raised(window).laid_out()
            } else {
                (self.enter_requested(window, None), Ok(()))
            },
        }
    }

    /// The state after the focused window is made to float or not to, and whether that failed.
    #[verifier::opaque]
    pub open spec fn floating_toggled(self) -> (State, Result<(), Failure>) {
        match self.keyboard_focus {
            None => (self, Ok(())),
            Some(window) => if !self.has_window(window) {
                (self, Ok(()))
            } else {
                let set = self.with_floating(window, !self.floats(window));
                if !self.floats(window) && set.on_screen(window) {
                    set.mapped_to(window, set.initial_rect(window), true).laid_out()
                } else {
                    set.laid_out()
                }
            },
        }
    }
}

impl Raven {
    fn sort_out(&self, list: &Vec<SurfaceId>, floating: bool) -> (windows: Vec<SurfaceId>)
        ensures
            windows@ == self@.sorted_out(list@, floating),
    {
        let mut windows: Vec<SurfaceId> = Vec::new();
        let mut index: usize = 0;
        assert(list@.take(0) =~= seq![]);
        while index < list.len()
            invariant
                index <= list.len(),
                windows@ == self@.sorted_out(list@.take(index as int), floating),
            decreases list.len() - index,
        {
            assert(list@.take(index + 1).drop_last() =~= list@.take(index as int));
            if self.is_window_floating(list[index]) == floating {
                windows.push(list[index]);
            }
            index = index + 1;
        }
        assert(list@.take(list@.len() as int) =~= list@);
        windows
    }

    fn windows_with_buffer(&self) -> (windows: Vec<SurfaceId>)
        ensures
            windows@ == self@.buffered(space::stack(self@.elements)),
    {
        let list = self.stacked_windows();
        let mut windows: Vec<SurfaceId> = Vec::new();
        let mut index: usize = 0;
        assert(list@.take(0) =~= seq![]);
        while index < list.len()
            invariant
                index <= list.len(),
                windows@ == self@.buffered(list@.take(index as int)),
            decreases list.len() - index,
        {
            assert(list@.take(index + 1).drop_last() =~= list@.take(index as int));
            if self.window_root_surface_has_buffer(list[index]) {
                windows.push(list[index]);
            }
            index = index + 1;
        }
        assert(list@.take(list@.len() as int) =~= list@);
        windows
    }

    fn raise_each(&mut self, list: &Vec<SurfaceId>)
        requires
            old(self)@.sound(),
        ensures
            final(self)@ == old(self)@.each_raised(list@),
            final(self)@.sound(),
    {
        let ghost before = self@;
        let mut index: usize = 0;
        assert(list@.take(0) =~= seq![]);
        while index < list.len()
            invariant
                index <= list.len(),
                self@ == before.each_raised(list@.take(index as int)),
                self@.sound(),
            decreases list.len() - index,
        {
            assert(list@.take(index + 1).drop_last() =~= list@.take(index as int));
            self.raise_element(list[index]);
            index = index + 1;
        }
        assert(list@.take(list@.len() as int) =~= list@);
    }

    /// Puts the floating windows above the tiled ones.
    pub fn restack_floating_windows_above_tiled(&mut self)
        requires
            old(self)@.sound(),
        ensures
            final(self)@ == old(self)@.restacked(),
            final(self)@.sound(),
    {
        let windows = self.stacked_windows();
        let tiled = self.sort_out(&windows, false);
        let floating = self.sort_out(&windows, true);
        if windows.len() < 2 {
            return;
        }
        if self.workspace_effective_exclusive_mode(self.current_workspace)
            != WindowFullscreenMode::Shared {
            return;
        }
        if tiled.len() == 0 || floating.len() == 0 {
            return;
        }
        self.raise_each(&tiled);
        self.raise_each(&floating);
    }

    /// Raises a window within the floating ones or the tiled ones.
    pub fn raise_window_preserving_layer(&mut self, window: SurfaceId)
        requires
            old(self)@.sound(),
        ensures
            final(self)@ == old(self)@.raised_in_layer(window),
            final(self)@.sound(),
    {
        self.raise_element(window);
        self.restack_floating_windows_above_tiled();
    }

    fn show_all(&mut self, list: &Vec<SurfaceId>)
        requires
            old(self)@.sound(),
        ensures
            final(self)@ == old(self)@.all_shown(list@),
            final(self)@.sound(),
    {
        let ghost before = self@;
        let mut index: usize = 0;
        assert(list@.take(0) =~= seq![]);
        while index < list.len()
            invariant
                index <= list.len(),
                self@ == before.all_shown(list@.take(index as int)),
                self@.sound(),
            decreases list.len() - index,
        {
            assert(list@.take(index + 1).drop_last() =~= list@.take(index as int));
            let window = list[index];
            if !self.is_window_mapped(window) && !self.window_is_unmapped_toplevel(window)
                && self.window_root_surface_has_buffer(window) {
                self.map_window_to_initial_location(window, false);
            }
            index = index + 1;
        }
        assert(list@.take(list@.len() as int) =~= list@);
    }

    /// Lays the fullscreen window of the current workspace out, where it has one that is meant for
    /// this output; whether it has.
    pub fn apply_fullscreen_layout_if_needed(&mut self, output: OutputId) -> (done: bool)
        requires
            old(self)@.sound(),
        ensures
            (final(self)@, done) == old(self)@.fullscreen_laid_out(output),
            final(self)@.sound(),
    {
        let workspace_index = self.current_workspace;
        let window = match self.workspace_fullscreen_owner_window(workspace_index) {
            Some(window) => window,
            None => return false,
        };
        if self.window_is_unmapped_toplevel(window) || !self.window_root_surface_has_buffer(
            window,
        ) {
            return false;
        }
        match self.preferred_output_for_window(window) {
            None => {
                self.clear_fullscreen_owner_for_workspace(workspace_index, true);
                return false;
            },
            Some(target_output) => {
                if target_output != output {
                    return false;
                }
            },
        }
        let target_rect = match self.window_exclusive_target_rect(window) {
            None => {
                self.clear_fullscreen_owner_for_workspace(workspace_index, true);
                return false;
            },
            Some(rect) => rect,
        };
        let place = element_location(&self.elements, window);
        let needs_resize = self.toplevel(window).geometry != target_rect.size;
        let needs_reconfigure = match self.assigned_rect_for_window(window) {
            Some(rect) => rect != target_rect,
            None => true,
        };
        let needs_map = match place {
            Some(loc) => loc != target_rect.loc,
            None => true,
        };
        self.record_assigned_rect_for_window(window, target_rect);
        if needs_resize || needs_reconfigure {
            let _ = self.apply_fullscreen_protocol_state(window, true, Some(target_rect));
        }
        if needs_map || needs_resize {
            self.map_window_to_rect(window, target_rect, false);
        }
        self.raise_element(window);
        true
    }

    fn lay_out_floating(&mut self, list: &Vec<SurfaceId>)
        requires
            old(self)@.sound(),
        ensures
            final(self)@ == old(self)@.floating_laid_out(list@),
            final(self)@.sound(),
    {
        let ghost before = self@;
        let mut index: usize = 0;
        assert(list@.take(0) =~= seq![]);
        while index < list.len()
            invariant
                index <= list.len(),
                self@ == before.floating_laid_out(list@.take(index as int)),
                self@.sound(),
            decreases list.len() - index,
        {
            assert(list@.take(index + 1).drop_last() =~= list@.take(index as int));
            let window = list[index];
            if !self.window_is_unmapped_toplevel(window) {
                match self.element_geometry(window) {
                    Some(rect) => self.record_assigned_rect_for_window(window, rect),
                    None => {
                        let rect = self.initial_map_rect_for_window(window);
                        self.record_assigned_rect_for_window(window, rect);
                        self.map_window_to_rect(window, rect, false);
                    },
                }
            }
            index = index + 1;
        }
        assert(list@.take(list@.len() as int) =~= list@);
    }

    fn lay_out_tile(&mut self, window: SurfaceId, area: Rectangle, tile: WindowGeometry)
        requires
            old(self)@.sound(),
        ensures
            final(self)@ == old(self)@.tile_laid_out(window, area, tile),
            final(self)@.sound(),
    {
        let target = place_tile(area, tile);
        let place = element_location(&self.elements, window);
        let needs_resize = self.toplevel(window).geometry != target.size;
        let is_mapped = place.is_some();
        let needs_reposition = match place {
            Some(loc) => loc != target.loc,
            None => true,
        };
        self.record_assigned_rect_for_window(window, target);
        if !is_mapped || needs_resize {
            let _ = self.configure_window_for_tiled_layout(window, target.size, area.size);
        }
        if needs_resize || needs_reposition {
            self.map_window_to_rect(window, target, false);
        }
    }

    fn lay_out_windows(&mut self, windows: &Vec<SurfaceId>, area: Rectangle)
        requires
            old(self)@.sound(),
        ensures
            final(self)@ == old(self)@.windows_laid_out(windows@, area),
            final(self)@.sound(),
    {
        let floating = self.sort_out(windows, true);
        self.lay_out_floating(&floating);
        let tiled = self.sort_out(windows, false);
        if tiled.len() == 0 {
            self.restack_floating_windows_above_tiled();
            return;
        }
        let tiles = arrange(&self.arrangements, area.size, tiled.len());
        let ghost placed = self@;
        let mut index: usize = 0;
        while index < tiled.len() && index < tiles.len()
            invariant
                index <= tiled.len(),
                index <= tiles.len(),
                self@ == placed.tiles_laid_out(tiled@, area, tiles@, index as nat),
                self@.sound(),
            decreases tiled.len() - index,
        {
            self.lay_out_tile(tiled[index], area, tiles[index]);
            index = index + 1;
        }
        self.restack_floating_windows_above_tiled();
    }

    fn drop_doubles(&mut self)
        requires
            old(self)@.sound(),
        ensures
            final(self)@ == old(self)@.singled(),
            final(self)@.sound(),
    {
        let ghost before = self@;
        let ghost all = self.elements@;
        let stack = self.stacked_windows();
        let mut kept: Vec<Element> = Vec::new();
        let mut at: usize = 0;
        assert(all.take(0) =~= seq![]);
        while at < self.elements.len()
            invariant
                at <= self.elements.len(),
                self@ == before,
                all == self.elements@,
                stack@ == space::stack(all),
                kept@ == before.single(all.take(at as int)),
            decreases self.elements.len() - at,
        {
            assert(all.take(at + 1).drop_last() =~= all.take(at as int));
            assert(space::stack(all.take(at as int)) =~= stack@.take(at as int));
            let element = self.elements[at];
            if !(self.window_root_surface_has_buffer(element.window) && occurs_before(
                &stack,
                at,
            )) {
                kept.push(element);
            }
            at = at + 1;
        }
        assert(all.take(all.len() as int) =~= all);
        let windows = self.windows_with_buffer();
        let mut index: usize = 0;
        assert(windows@.take(0) =~= seq![]);
        while index < windows.len()
            invariant
                index <= windows.len(),
                self@ == before.doubles_cleared(windows@.take(index as int)),
                self@.sound(),
            decreases windows.len() - index,
        {
            assert(windows@.take(index + 1).drop_last() =~= windows@.take(index as int));
            if occurs_before(&windows, index) {
                self.clear_assigned_rect_for_surface(windows[index]);
                self.clear_reported_size_for_surface(windows[index]);
            }
            index = index + 1;
        }
        assert(windows@.take(windows@.len() as int) =~= windows@);
        self.elements = kept;
    }

    /// Lays the screen out: forgets what is dead, shows the windows of the current workspace, and
    /// gives each its place.
    pub fn apply_layout(&mut self) -> (result: Result<(), CompositorError>)
        requires
            old(self)@.sound(),
        ensures
            (final(self)@, errors::outcome(result)) == old(self)@.laid_out(),
            final(self)@.sound(),
    {
        proof {
            reveal(State::laid_out);
            crate::state::lifecycle::burying_keeps_sound(self@, self@.dead_windows());
        }
        self.prune_windows_without_live_client();
        let listed = copy_list(&self.workspaces[self.current_workspace]);
        self.show_all(&listed);
        self.drop_doubles();
        let windows = self.windows_with_buffer();
        if windows.len() == 0 {
            return Ok(());
        }
        if self.outputs.len() == 0 {
            return Err(CompositorError::Backend("no output".to_owned()));
        }
        let output = self.outputs[0];
        let whole = match output.geometry {
            Some(whole) => whole,
            None => return Err(CompositorError::Backend("no output geometry".to_owned())),
        };
        if self.apply_fullscreen_layout_if_needed(output.id) {
            return Ok(());
        }
        let area = geometry::usable_area(output.work_area, whole);
        self.lay_out_windows(&windows, area);
        Ok(())
    }

    /// Completes a change of fullscreen that the client has followed.
    pub fn maybe_apply_pending_fullscreen_transition_for_surface(&mut self, surface: SurfaceId)
        requires
            old(self)@.sound(),
        ensures
            final(self)@ == old(self)@.transition_applied(surface),
            final(self)@.sound(),
    {
        proof {
            reveal(State::transition_applied);
        }
        let transition = match self.fullscreen.pending_transitions.get(&surface) {
            Some(transition) => *transition,
            None => return,
        };
        if self.window_for_surface(surface).is_none() {
            self.fullscreen.pending_transitions.remove(&surface);
            return;
        }
        if !self.is_window_mapped(surface) {
            return;
        }
        if !self.pending_fullscreen_transition_is_ready(surface, transition) {
            return;
        }
        self.fullscreen.pending_transitions.remove(&surface);
        match transition {
            PendingFullscreenTransition::Enter { requested_output } => {
                if self.enter_fullscreen_window_on_output(surface, requested_output) {
                    self.raise_element(surface);
                }
                let _ = self.apply_layout();
            },
            PendingFullscreenTransition::Exit => {
                if self.finalize_fullscreen_exit_visual_state(surface) {
                    let _ = self.apply_layout();
                }
            },
        }
    }

    /// Gives a window that waited for the screen what it asked for meanwhile.
    pub fn maybe_apply_pending_unmapped_state_for_surface(&mut self, surface: SurfaceId)
        requires
            old(self)@.sound(),
        ensures
            final(self)@ == old(self)@.pending_applied(surface),
            final(self)@.sound(),
    {
        proof {
            reveal(State::pending_applied);
        }
        let wants_fullscreen = self.fullscreen.pending_unmapped_ids.contains(&surface);
        let wants_maximized = self.has_pending_unmapped_maximized_for_surface(surface);
        if !wants_fullscreen && !wants_maximized {
            return;
        }
        if self.window_for_surface(surface).is_none() {
            self.clear_pending_unmapped_state_for_surface(surface);
            return;
        }
        if !self.is_window_mapped(surface) {
            return;
        }
        self.clear_pending_unmapped_fullscreen_for_surface(surface);
        self.clear_pending_unmapped_maximized_for_surface(surface);
        if self.window_has_exclusive_layout_state(surface) {
            self.raise_element(surface);
            let _ = self.apply_layout();
        }
    }

    /// Makes the focused window fullscreen, or not.
    pub fn toggle_fullscreen_focused_window(&mut self) -> (result: Result<(), CompositorError>)
        requires
            old(self)@.sound(),
        ensures
            (final(self)@, errors::outcome(result)) == old(self)@.fullscreen_toggled(),
            final(self)@.sound(),
    {
        proof {
            reveal(State::fullscreen_toggled);
        }
        let window = match self.keyboard_focus {
            Some(surface) => match self.window_for_surface(surface) {
                Some(window) => window,
                None => return Ok(()),
            },
            None => return Ok(()),
        };
        if self.window_effective_fullscreen_state(window) {
            if self.request_fullscreen_exit(window) {
                return self.apply_layout();
            }
            return Ok(());
        }
        if self.request_fullscreen_enter_on_output(window, None) {
            self.raise_element(window);
            return self.apply_layout();
        }
        Ok(())
    }

    /// Makes the focused window float, or not.
    pub fn toggle_floating_focused_window(&mut self) -> (result: Result<(), CompositorError>)
        requires
            old(self)@.sound(),
        ensures
            (final(self)@, errors::outcome(result)) == old(self)@.floating_toggled(),
            final(self)@.sound(),
    {
        proof {
            reveal(State::floating_toggled);
        }
        let window = match self.keyboard_focus {
            Some(surface) => match self.window_for_surface(surface) {
                Some(window) => window,
                None => return Ok(()),
            },
            None => return Ok(()),
        };
        let currently_floating = self.is_window_floating(window);
        self.set_window_floating(window, !currently_floating);
        if !currently_floating && self.is_window_mapped(window) {
            self.map_window_to_initial_location(window, true);
        }
        self.apply_layout()
    }
}

/// A copy of a list of windows.
pub fn copy_list(list: &Vec<SurfaceId>) -> (copy: Vec<SurfaceId>)
    ensures
        copy@ == list@,
{
    let mut copy: Vec<SurfaceId> = Vec::new();
    let mut index: usize = 0;
    while index < list.len()
        invariant
            index <= list.len(),
            copy@ =~= list@.take(index as int),
        decreases list.len() - index,
    {
        copy.push(list[index]);
        index = index + 1;
    }
    copy
}

proof fn none_is_double(state: State, list: Seq<SurfaceId>)
    requires
        list.no_duplicates(),
    ensures
        state.doubles_cleared(state.buffered(list)) == state,
        forall|i: int|
            0 <= i < state.buffered(list).len() ==> list.contains(
                #[trigger] state.buffered(list)[i],
            ),
    decreases list.len(),
{
    if list.len() > 0 {
        let rest = list.drop_last();
        assert forall|i: int, j: int|
            0 <= i < rest.len() && 0 <= j < rest.len() && i != j implies rest[i] != rest[j] by {
            assert(rest[i] == list[i] && rest[j] == list[j]);
        }
        none_is_double(state, rest);
        let before = state.buffered(rest);
        let after = state.buffered(list);
        assert forall|i: int| 0 <= i < after.len() implies list.contains(#[trigger] after[i]) by {
            if i < before.len() {
                assert(after[i] == before[i]);
                assert(rest.contains(before[i]));
                let k = choose|k: int| 0 <= k < rest.len() && rest[k] == before[i];
                assert(list[k] == before[i]);
            } else {
                assert(list[list.len() - 1] == after[i]);
            }
        }
        if state.toplevel(list.last()).has_buffer {
            assert(after.drop_last() =~= before);
            if before.contains(list.last()) {
                let i = choose|i: int| 0 <= i < before.len() && before[i] == list.last();
                assert(rest.contains(before[i]));
                let k = choose|k: int| 0 <= k < rest.len() && rest[k] == before[i];
                assert(list[k] == list[list.len() - 1]);
            }
        }
    }
}

proof fn all_are_single(state: State, elements: Seq<Element>)
    requires
        space::one_each(elements),
    ensures
        state.single(elements) == elements,
    decreases elements.len(),
{
    if elements.len() > 0 {
        let rest = elements.drop_last();
        assert forall|i: int, j: int| 0 <= i < j < rest.len() implies rest[i].window
            != rest[j].window by {
            assert(rest[i] == elements[i] && rest[j] == elements[j]);
        }
        all_are_single(state, rest);
        let stack = space::stack(rest);
        if stack.contains(elements.last().window) {
            let i = choose|i: int| 0 <= i < stack.len() && stack[i] == elements.last().window;
            assert(elements[i].window == elements[elements.len() - 1].window);
        }
        assert(rest.push(elements.last()) =~= elements);
    }
}

/// Where no window is on the screen twice, none is taken off it.
pub proof fn singles_stay(state: State)
    requires
        space::one_each(state.elements),
    ensures
        state.singled() == state,
{
    let stack = space::stack(state.elements);
    assert forall|i: int, j: int|
        0 <= i < stack.len() && 0 <= j < stack.len() && i != j implies stack[i] != stack[j] by {
        if i < j {
            assert(state.elements[i].window != state.elements[j].window);
        } else {
            assert(state.elements[j].window != state.elements[i].window);
        }
    }
    none_is_double(state, stack);
    all_are_single(state, state.elements);
}

} // verus!
