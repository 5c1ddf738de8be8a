//! Where windows belong: the outputs they are meant for, and the rectangles they get there.

use crate::geometry;
use crate::geometry::{center_in, place_tile, Point, Rectangle, Size, WindowGeometry};
use crate::state::lists;
use crate::state::lists::{keep_firsts, SurfaceId};
use crate::state::raven::{Raven, State};
use crate::state::space;
use crate::state::space::{arrange, find_output, output_geometry};
use crate::state::toplevel::{FullscreenSlot, OutputId, WindowFullscreenMode};
use vstd::prelude::*;

verus! {

broadcast use vstd::std_specs::hash::group_hash_axioms;

/// The tile of `window`, where the tiles are those of `windows` in this order.
pub open spec fn tile_of(
    windows: Seq<SurfaceId>,
    tiles: Seq<WindowGeometry>,
    window: SurfaceId,
) -> Option<WindowGeometry>
    decreases windows.len(),
{
    if windows.len() == 0 || tiles.len() == 0 {
        None
    } else if windows[0] == window {
        Some(tiles[0])
    } else {
        tile_of(windows.skip(1), tiles.skip(1), window)
    }
}

impl State {
    /// Whether an output is in use.
    pub open spec fn output_active(self, output: OutputId) -> bool {
        space::geometry_of(self.outputs, output) is Some
    }

    /// The fullscreen window of a workspace.
    pub open spec fn slot(self, workspace: int) -> Option<FullscreenSlot> {
        if 0 <= workspace < self.owners.len() {
            self.owners[workspace]
        } else {
            None
        }
    }

    /// Whether a window has its workspace's fullscreen.
    pub open spec fn owns_workspace(self, window: SurfaceId) -> bool {
        match self.workspace_of(window) {
            Some(index) => match self.slot(index as int) {
                Some(slot) => slot.surface == window,
                None => false,
            },
            None => false,
        }
    }

    /// The output that a window is fullscreen on, where that is in use.
    pub open spec fn slot_output(self, window: SurfaceId) -> Option<OutputId> {
        if !self.owns_workspace(window) {
            None
        } else {
            match self.slot(self.workspace_of(window).unwrap() as int).unwrap().output {
                Some(output) => if self.output_active(output) {
                    Some(output)
                } else {
                    None
                },
                None => None,
            }
        }
    }

    /// The output that a window is on, or else the first.
    pub open spec fn fallback_output(self, window: SurfaceId) -> Option<OutputId> {
        match self.overlapped(window) {
            Some(output) => Some(output),
            None => self.first_output(),
        }
    }

    /// The output that a window is meant for.
    pub open spec fn preferred_output(self, window: SurfaceId) -> Option<OutputId> {
        match self.slot_output(window) {
            Some(output) => Some(output),
            None => self.fallback_output(window),
        }
    }

    /// The output that a window goes fullscreen on: the requested one where it is in use.
    pub open spec fn resolved_output(self, window: SurfaceId, requested: Option<OutputId>) -> Option<
        OutputId,
    > {
        match requested {
            Some(output) => if self.output_active(output) {
                Some(output)
            } else {
                self.preferred_output(window)
            },
            None => self.preferred_output(window),
        }
    }

    /// The geometry of an output, where there is one.
    pub open spec fn output_rect(self, output: Option<OutputId>) -> Option<Rectangle> {
        match output {
            Some(output) => space::geometry_of(self.outputs, output),
            None => None,
        }
    }

    /// What layer surfaces leave of the output that a window is meant for.
    pub open spec fn work_area(self, window: SurfaceId) -> Option<Rectangle> {
        match self.preferred_output(window) {
            Some(id) => match space::output_of(self.outputs, id) {
                Some(output) => match output.geometry {
                    Some(whole) => Some(geometry::usable(output.work_area, whole)),
                    None => None,
                },
                None => None,
            },
            None => None,
        }
    }

    /// Whether a window is maximized, or asked to be.
    pub open spec fn marked_maximized(self, window: SurfaceId) -> bool {
        ||| self.maximized.contains(window)
        ||| self.toplevel(window).pending.maximized
        ||| self.toplevel(window).committed_maximized
    }

    /// Whether a window has the screen for itself, and how.
    pub open spec fn exclusive_mode(self, window: SurfaceId) -> WindowFullscreenMode {
        if self.owns_workspace(window) {
            WindowFullscreenMode::Fullscreen
        } else if self.marked_maximized(window) {
            WindowFullscreenMode::Maximized
        } else {
            WindowFullscreenMode::Shared
        }
    }

    /// Whether a window has the screen for itself.
    pub open spec fn exclusive(self, window: SurfaceId) -> bool {
        self.exclusive_mode(window) != WindowFullscreenMode::Shared
    }

    /// The rectangle of a window that has the screen for itself.
    pub open spec fn exclusive_rect(self, window: SurfaceId) -> Option<Rectangle> {
        match self.exclusive_mode(window) {
            WindowFullscreenMode::Fullscreen => self.output_rect(self.preferred_output(window)),
            WindowFullscreenMode::Maximized => self.work_area(window),
            WindowFullscreenMode::Shared => None,
        }
    }

    /// The fullscreen window of a workspace, where it is on that workspace.
    pub open spec fn owner_window(self, workspace: int) -> Option<SurfaceId> {
        match self.slot(workspace) {
            Some(slot) => if self.has_window(slot.surface) && self.workspace_holds(
                workspace,
                slot.surface,
            ) {
                Some(slot.surface)
            } else {
                None
            },
            None => None,
        }
    }

    /// Those of `list` that a layout of their workspace tiles.
    pub open spec fn tiled_on_workspace(self, list: Seq<SurfaceId>) -> Seq<SurfaceId>
        decreases list.len(),
    {
        if list.len() == 0 {
            list
        } else {
            let before = self.tiled_on_workspace(list.drop_last());
            if !self.floats(list.last()) && !self.unmapped_marks.contains(list.last())
                && self.toplevel(list.last()).live {
                before.push(list.last())
            } else {
                before
            }
        }
    }

    /// Those of `list` that a layout of the screen tiles.
    pub open spec fn tiled_on_screen(self, list: Seq<SurfaceId>) -> Seq<SurfaceId>
        decreases list.len(),
    {
        if list.len() == 0 {
            list
        } else {
            let before = self.tiled_on_screen(list.drop_last());
            if !self.floats(list.last()) && self.toplevel(list.last()).live && self.toplevel(
                list.last(),
            ).has_buffer {
                before.push(list.last())
            } else {
                before
            }
        }
    }

    /// Where the layout of its workspace puts a window, and the size of the area it is put into.
    pub open spec fn layout_target(self, window: SurfaceId) -> Option<(Rectangle, Size)> {
        let index = match self.workspace_of(window) {
            Some(index) => index,
            None => self.current,
        };
        match self.work_area(window) {
            Some(area) => {
                let windows = self.tiled_on_workspace(self.mapped[index as int]);
                let tiles = space::tiles_for(self.layouts, area.size, windows.len());
                match tile_of(windows, tiles, window) {
                    Some(tile) => Some((geometry::placed(area, tile), area.size)),
                    None => None,
                }
            },
            None => None,
        }
    }

    /// What layer surfaces leave of the first output.
    pub open spec fn first_area(self) -> Option<Rectangle> {
        if self.outputs.len() == 0 {
            None
        } else {
            match self.outputs[0].geometry {
                Some(whole) => Some(geometry::usable(self.outputs[0].work_area, whole)),
                None => None,
            }
        }
    }

    /// The windows that are tiled once `window` is on the screen too.
    pub open spec fn tiled_with(self, window: SurfaceId) -> Seq<SurfaceId> {
        let tiled = self.tiled_on_screen(space::stack(self.elements));
        if !self.on_screen(window) && !self.floats(window) {
            tiled.push(window)
        } else {
            tiled
        }
    }

    /// Where the next layout will put a window, and the size of the area it is put into.
    pub open spec fn coming_slot(self, window: SurfaceId) -> Option<(Rectangle, Size)> {
        match self.first_area() {
            Some(area) => {
                let windows = lists::firsts(self.tiled_with(window));
                let tiles = space::tiles_for(self.layouts, area.size, windows.len());
                match tile_of(windows, tiles, window) {
                    Some(tile) => Some((geometry::placed(area, tile), area.size)),
                    None => None,
                }
            },
            None => None,
        }
    }

    /// The output that the pointer is on, or else the first.
    pub open spec fn active_output(self) -> Option<OutputId> {
        match self.pointer_output {
            Some(id) => if space::output_of(self.outputs, id) is Some {
                Some(id)
            } else {
                self.first_output()
            },
            None => self.first_output(),
        }
    }

    /// The area that a new floating window is centred in.
    pub open spec fn floating_area(self) -> Option<Rectangle> {
        match self.active_output() {
            Some(id) => match space::output_of(self.outputs, id) {
                Some(output) => if output.work_area.size.roomy() {
                    Some(output.work_area)
                } else {
                    output.geometry
                },
                None => None,
            },
            None => None,
        }
    }

    /// Where a floating window starts: in the middle of the area, by the size it has fixed or else
    /// by the size it has.
    pub open spec fn floating_location(self, window: SurfaceId) -> Point {
        match self.floating_area() {
            Some(area) => geometry::centered(
                area,
                match self.toplevel(window).fixed_size() {
                    Some(size) => size,
                    None => self.toplevel(window).geometry,
                },
            ),
            None => Point { x: 80, y: 80 },
        }
    }

    /// The rectangle that a window comes onto the screen with.
    pub open spec fn initial_rect(self, window: SurfaceId) -> Rectangle {
        match self.exclusive_rect(window) {
            Some(rect) => rect,
            None => match self.assigned_rect(window) {
                Some(rect) => rect,
                None => if self.floats(window) {
                    Rectangle {
                        loc: self.floating_location(window),
                        size: self.fallback_size(window),
                    }
                } else {
                    match self.coming_slot(window) {
                        Some((rect, _)) => rect,
                        None => Rectangle {
                            loc: Point { x: 0, y: 0 },
                            size: self.fallback_size(window),
                        },
                    }
                },
            },
        }
    }
}

fn find_tile(windows: &Vec<SurfaceId>, tiles: &Vec<WindowGeometry>, window: SurfaceId) -> (tile: Option<
    WindowGeometry,
>)
    ensures
        tile == tile_of(windows@, tiles@, window),
{
    let mut index: usize = 0;
    assert(windows@.skip(0) =~= windows@);
    assert(tiles@.skip(0) =~= tiles@);
    while index < windows.len() && index < tiles.len()
        invariant
            index <= windows.len(),
            index <= tiles.len(),
            tile_of(windows@.skip(index as int), tiles@.skip(index as int), window) == tile_of(
                windows@,
                tiles@,
                window,
            ),
        decreases windows.len() - index,
    {
        assert(windows@.skip(index as int).skip(1) =~= windows@.skip(index + 1));
        assert(tiles@.skip(index as int).skip(1) =~= tiles@.skip(index + 1));
        if windows[index] == window {
            return Some(tiles[index]);
        }
        index = index + 1;
    }
    None
}

/// An output that is found is one of the list.
pub proof fn output_of_is_there(outputs: Seq<space::Output>, id: OutputId)
    ensures
        space::output_of(outputs, id) matches Some(output) ==> outputs.contains(output)
            && output.id == id,
    decreases outputs.len(),
{
    if outputs.len() > 0 && outputs[0].id != id {
        let rest = outputs.skip(1);
        output_of_is_there(rest, id);
        if let Some(output) = space::output_of(rest, id) {
            let i = choose|i: int| 0 <= i < rest.len() && rest[i] == output;
            assert(outputs[i + 1] == output);
        }
    }
}

impl Raven {
    fn output_is_active(&self, output: OutputId) -> (result: bool)
        ensures
            result == self@.output_active(output),
    {
        output_geometry(&self.outputs, output).is_some()
    }

    fn slot_for_workspace(&self, workspace_index: usize) -> (slot: Option<FullscreenSlot>)
        ensures
            slot == self@.slot(workspace_index as int),
    {
        if workspace_index < self.fullscreen.owners.len() {
            self.fullscreen.owners[workspace_index]
        } else {
            None
        }
    }

    /// Whether a window has its workspace's fullscreen.
    pub fn window_is_workspace_fullscreen_owner(&self, window: SurfaceId) -> (result: bool)
        ensures
            result == self@.owns_workspace(window),
    {
        match self.workspace_index_for_window(window) {
            Some(index) => match self.slot_for_workspace(index) {
                Some(slot) => slot.surface == window,
                None => false,
            },
            None => false,
        }
    }

    /// The output that a window is fullscreen on, where that is in use.
    pub fn fullscreen_slot_output_for_window(&self, window: SurfaceId) -> (output: Option<OutputId>)
        ensures
            output == self@.slot_output(window),
    {
        if !self.window_is_workspace_fullscreen_owner(window) {
            return None;
        }
        match self.workspace_index_for_window(window) {
            Some(index) => match self.slot_for_workspace(index) {
                Some(slot) => match slot.output {
                    Some(output) => if self.output_is_active(output) {
                        Some(output)
                    } else {
                        None
                    },
                    None => None,
                },
                None => None,
            },
            None => None,
        }
    }

    /// The output that a window is meant for.
    pub fn preferred_output_for_window(&self, window: SurfaceId) -> (output: Option<OutputId>)
        ensures
            output == self@.preferred_output(window),
    {
        match self.fullscreen_slot_output_for_window(window) {
            Some(output) => Some(output),
            None => match self.output_for_element(window) {
                Some(output) => Some(output),
                None => self.first_output(),
            },
        }
    }

    /// The output that a window goes fullscreen on: the requested one where it is in use.
    pub fn resolve_fullscreen_output(
        &self,
        window: SurfaceId,
        requested_output: Option<OutputId>,
    ) -> (output: Option<OutputId>)
        ensures
            output == self@.resolved_output(window, requested_output),
    {
        if let Some(output) = requested_output {
            if self.output_is_active(output) {
                return Some(output);
            }
        }
        self.preferred_output_for_window(window)
    }

    /// The geometry of an output, where there is one.
    pub fn fullscreen_output_rect_for_output(&self, output: Option<OutputId>) -> (rect: Option<
        Rectangle,
    >)
        ensures
            rect == self@.output_rect(output),
    {
        match output {
            Some(output) => output_geometry(&self.outputs, output),
            None => None,
        }
    }

    /// What layer surfaces leave of the output that a window is meant for.
    pub fn work_area_rect_for_window(&self, window: SurfaceId) -> (rect: Option<Rectangle>)
        ensures
            rect == self@.work_area(window),
    {
        match self.preferred_output_for_window(window) {
            Some(id) => match find_output(&self.outputs, id) {
                Some(output) => match output.geometry {
                    Some(whole) => Some(geometry::usable_area(output.work_area, whole)),
                    None => None,
                },
                None => None,
            },
            None => None,
        }
    }

    /// Whether a window is maximized, or asked to be.
    pub fn window_is_marked_maximized(&self, window: SurfaceId) -> (result: bool)
        ensures
            result == self@.marked_maximized(window),
    {
        let toplevel = self.toplevel(window);
        self.fullscreen.maximized.contains(&window) || toplevel.pending.maximized
            || toplevel.committed_maximized
    }

    /// Whether a window has the screen for itself, and how.
    pub fn window_effective_exclusive_mode(&self, window: SurfaceId) -> (mode: WindowFullscreenMode)
        ensures
            mode == self@.exclusive_mode(window),
    {
        if self.window_is_workspace_fullscreen_owner(window) {
            WindowFullscreenMode::Fullscreen
        } else if self.window_is_marked_maximized(window) {
            WindowFullscreenMode::Maximized
        } else {
            WindowFullscreenMode::Shared
        }
    }

    /// Whether a window is fullscreen.
    pub fn window_effective_fullscreen_state(&self, window: SurfaceId) -> (result: bool)
        ensures
            result == self@.owns_workspace(window),
    {
        self.window_effective_exclusive_mode(window) == WindowFullscreenMode::Fullscreen
    }

    /// Whether a window has the screen for itself.
    pub fn window_has_exclusive_layout_state(&self, window: SurfaceId) -> (result: bool)
        ensures
            result == self@.exclusive(window),
    {
        self.window_effective_exclusive_mode(window) != WindowFullscreenMode::Shared
    }

    /// The rectangle of a window that has the screen for itself.
    pub fn window_exclusive_target_rect(&self, window: SurfaceId) -> (rect: Option<Rectangle>)
        ensures
            rect == self@.exclusive_rect(window),
    {
        match self.window_effective_exclusive_mode(window) {
            WindowFullscreenMode::Fullscreen => self.fullscreen_output_rect_for_output(
                self.preferred_output_for_window(window),
            ),
            WindowFullscreenMode::Maximized => self.work_area_rect_for_window(window),
            WindowFullscreenMode::Shared => None,
        }
    }

    /// The fullscreen window of a workspace, where it is on that workspace.
    pub fn workspace_fullscreen_owner_window(&self, workspace_index: usize) -> (window: Option<
        SurfaceId,
    >)
        requires
            self@.sound(),
        ensures
            window == self@.owner_window(workspace_index as int),
    {
        match self.slot_for_workspace(workspace_index) {
            Some(slot) => match self.window_for_surface(slot.surface) {
                Some(window) => if self.workspace_contains_window(workspace_index, window) {
                    Some(window)
                } else {
                    None
                },
                None => None,
            },
            None => None,
        }
    }

    /// Whether a window has a workspace for itself, and how.
    pub fn workspace_effective_exclusive_mode(&self, workspace_index: usize) -> (mode:
        WindowFullscreenMode)
        requires
            self@.sound(),
        ensures
            mode == (if self@.owner_window(workspace_index as int) is Some {
                WindowFullscreenMode::Fullscreen
            } else {
                WindowFullscreenMode::Shared
            }),
    {
        if self.workspace_fullscreen_owner_window(workspace_index).is_some() {
            WindowFullscreenMode::Fullscreen
        } else {
            WindowFullscreenMode::Shared
        }
    }

    /// The fullscreen window of the current workspace, where it is meant for this output.
    pub fn fullscreen_window_for_output(&self, output: OutputId) -> (window: Option<SurfaceId>)
        requires
            self@.sound(),
        ensures
            window == match self@.owner_window(self@.current as int) {
                Some(owner) => if self@.preferred_output(owner) == Some(output) {
                    Some(owner)
                } else {
                    None
                },
                None => None,
            },
    {
        match self.workspace_fullscreen_owner_window(self.current_workspace) {
            Some(window) => match self.preferred_output_for_window(window) {
                Some(target) => if target == output {
                    Some(window)
                } else {
                    None
                },
                None => None,
            },
            None => None,
        }
    }

    /// Whether the current workspace has a fullscreen window that is meant for this output.
    pub fn output_has_fullscreen_window(&self, output: OutputId) -> (result: bool)
        requires
            self@.sound(),
        ensures
            result == (self@.owner_window(self@.current as int) matches Some(owner)
                && self@.preferred_output(owner) == Some(output)),
    {
        self.fullscreen_window_for_output(output).is_some()
    }

    fn tiled_workspace_windows(&self, list: &Vec<SurfaceId>) -> (windows: Vec<SurfaceId>)
        ensures
            windows@ == self@.tiled_on_workspace(list@),
    {
        let mut windows: Vec<SurfaceId> = Vec::new();
        let mut index: usize = 0;
        assert(list@.take(0) =~= seq![]);
        while index < list.len()
            invariant
                index <= list.len(),
                windows@ == self@.tiled_on_workspace(list@.take(index as int)),
            decreases list.len() - index,
        {
            assert(list@.take(index + 1).drop_last() =~= list@.take(index as int));
            let window = list[index];
            if !self.is_window_floating(window) && !self.window_is_unmapped_toplevel(window)
                && self.window_has_live_client(window) {
                windows.push(window);
            }
            index = index + 1;
        }
        assert(list@.take(list@.len() as int) =~= list@);
        windows
    }

    fn tiled_screen_windows(&self) -> (windows: Vec<SurfaceId>)
        ensures
            windows@ == self@.tiled_on_screen(space::stack(self@.elements)),
    {
        let list = self.stacked_windows();
        let mut windows: Vec<SurfaceId> = Vec::new();
        let mut index: usize = 0;
        assert(list@.take(0) =~= seq![]);
        while index < list.len()
            invariant
                index <= list.len(),
                windows@ == self@.tiled_on_screen(list@.take(index as int)),
            decreases list.len() - index,
        {
            assert(list@.take(index + 1).drop_last() =~= list@.take(index as int));
            let window = list[index];
            if !self.is_window_floating(window) && self.window_has_live_client(window)
                && self.window_root_surface_has_buffer(window) {
                windows.push(window);
            }
            index = index + 1;
        }
        assert(list@.take(list@.len() as int) =~= list@);
        windows
    }

    /// Where the layout of its workspace puts a window, and the size of the area it is put into.
    pub fn compute_workspace_layout_target(&self, window: SurfaceId) -> (target: Option<
        (Rectangle, Size),
    >)
        requires
            self@.sound(),
        ensures
            target == self@.layout_target(window),
    {
        proof {
            crate::state::lists::index_of_finds(self@.mapped, window);
            crate::state::lists::index_of_finds(self@.unmapped, window);
        }
        let workspace_index = match self.workspace_index_for_window(window) {
            Some(index) => index,
            None => self.current_workspace,
        };
        match self.work_area_rect_for_window(window) {
            Some(area) => {
                let windows = self.tiled_workspace_windows(&self.workspaces[workspace_index]);
                let tiles = arrange(&self.arrangements, area.size, windows.len());
                match find_tile(&windows, &tiles, window) {
                    Some(tile) => Some((place_tile(area, tile), area.size)),
                    None => None,
                }
            },
            None => None,
        }
    }

    /// What layer surfaces leave of the first output.
    pub fn first_output_area(&self) -> (area: Option<Rectangle>)
        ensures
            area == self@.first_area(),
    {
        if self.outputs.len() == 0 {
            None
        } else {
            match self.outputs[0].geometry {
                Some(whole) => Some(geometry::usable_area(self.outputs[0].work_area, whole)),
                None => None,
            }
        }
    }

    /// Where the next layout will put a window, and the size of the area it is put into.
    pub fn pre_layout_tiled_slot_for_window(&self, window: SurfaceId) -> (slot: Option<
        (Rectangle, Size),
    >)
        ensures
            slot == self@.coming_slot(window),
    {
        match self.first_output_area() {
            Some(area) => {
                let mut windows = self.tiled_screen_windows();
                if !self.is_window_mapped(window) && !self.is_window_floating(window) {
                    windows.push(window);
                }
                let windows = keep_firsts(&windows);
                let tiles = arrange(&self.arrangements, area.size, windows.len());
                match find_tile(&windows, &tiles, window) {
                    Some(tile) => Some((place_tile(area, tile), area.size)),
                    None => None,
                }
            },
            None => None,
        }
    }

    /// The output that the pointer is on, or else the first.
    pub fn active_output_for_pointer(&self) -> (output: Option<OutputId>)
        ensures
            output == self@.active_output(),
    {
        if let Some(id) = self.pointer_output {
            if find_output(&self.outputs, id).is_some() {
                return Some(id);
            }
        }
        self.first_output()
    }

    /// Where a floating window starts: in the middle of the area, by the size it has fixed or else
    /// by the size it has.
    pub fn default_floating_location(&self, window: SurfaceId) -> (location: Point)
        requires
            self@.sound(),
        ensures
            location == self@.floating_location(window),
    {
        let area = match self.active_output_for_pointer() {
            Some(id) => match find_output(&self.outputs, id) {
                Some(output) => {
                    proof {
                        output_of_is_there(self@.outputs, id);
                    }
                    if output.work_area.size.has_room() {
                        Some(output.work_area)
                    } else {
                        output.geometry
                    }
                },
                None => None,
            },
            None => None,
        };
        match area {
            Some(area) => {
                let toplevel = self.toplevel(window);
                let size = match toplevel.fixed_hint_size() {
                    Some(size) => size,
                    None => toplevel.geometry,
                };
                center_in(area, size)
            },
            None => Point { x: 80, y: 80 },
        }
    }

    /// The rectangle that a window comes onto the screen with.
    pub fn initial_map_rect_for_window(&self, window: SurfaceId) -> (rect: Rectangle)
        requires
            self@.sound(),
        ensures
            rect == self@.initial_rect(window),
    {
        if let Some(rect) = self.window_exclusive_target_rect(window) {
            return rect;
        }
        if let Some(rect) = self.assigned_rect_for_window(window) {
            return rect;
        }
        if self.is_window_floating(window) {
            return Rectangle {
                loc: self.default_floating_location(window),
                size: self.fallback_window_size(window),
            };
        }
        match self.pre_layout_tiled_slot_for_window(window) {
            Some((rect, _)) => rect,
            None => Rectangle {
                loc: Point { x: 0, y: 0 },
                size: self.fallback_window_size(window),
            },
        }
    }

    /// The place that a window comes onto the screen at.
    pub fn initial_map_location_for_window(&self, window: SurfaceId) -> (location: Point)
        requires
            self@.sound(),
        ensures
            location == self@.initial_rect(window).loc,
    {
        self.initial_map_rect_for_window(window).loc
    }

    /// Puts a window onto the screen.
    pub fn map_window_to_initial_location(&mut self, window: SurfaceId, activate: bool)
        requires
            old(self)@.sound(),
        ensures
            final(self)@ == old(self)@.mapped_to(
                window,
                old(self)@.initial_rect(window),
                activate,
            ),
    {
        let rect = self.initial_map_rect_for_window(window);
        self.map_window_to_rect(window, rect, activate);
    }

    /// Puts a window onto the screen, unless it must not be there yet; whether it did.
    pub fn map_window_to_initial_location_if_mappable(
        &mut self,
        window: SurfaceId,
        activate: bool,
    ) -> (mapped: bool)
        requires
            old(self)@.sound(),
        ensures
            mapped == !old(self)@.unmapped_marks.contains(window),
            final(self)@ == (if mapped {
                old(self)@.mapped_to(window, old(self)@.initial_rect(window), activate)
            } else {
                old(self)@
            }),
    {
        if self.window_is_unmapped_toplevel(window) {
            return false;
        }
        self.map_window_to_initial_location(window, activate);
        true
    }
}

} // verus!
