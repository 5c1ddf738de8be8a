//! What comes onto the screen: a layout shows no window but those of the current workspace.

use crate::geometry;
use crate::geometry::{Rectangle, WindowGeometry};
use crate::state::laws;
use crate::state::layout;
use crate::state::lists;
use crate::state::lists::SurfaceId;
use crate::state::raven::State;
use crate::state::space;
use crate::state::space::Element;
use crate::state::staying;
use crate::state::toplevel::OutputId;
use vstd::prelude::*;

verus! {

impl State {
    /// Whether a window is not on the screen.
    pub open spec fn is_off(self, window: SurfaceId) -> bool {
        !space::stack(self.elements).contains(window)
    }

    /// Whether a window is on the screen only if the current workspace has it.
    pub open spec fn in_place(self, window: SurfaceId) -> bool {
        self.on_screen(window) ==> self.mapped[self.current as int].contains(window)
    }
}

proof fn mapping_another_stays_off(
    state: State,
    other: SurfaceId,
    rect: Rectangle,
    window: SurfaceId,
)
    requires
        state.is_off(window),
        other != window,
    ensures
        state.mapped_to(other, rect, false).is_off(window),
{
    space::topped_keeps(state.elements, other, rect.loc);
}

/// Raising a window brings no other onto the screen.
pub proof fn raising_stays_off(state: State, other: SurfaceId, window: SurfaceId)
    requires
        state.is_off(window),
    ensures
        state.raised(other).is_off(window),
{
    space::place_of_finds(state.elements, other);
    if let Some(location) = space::place_of(state.elements, other) {
        space::topped_keeps(state.elements, other, location);
    }
}

proof fn burying_stays_off(state: State, dead: Seq<SurfaceId>, window: SurfaceId)
    requires
        state.is_off(window),
    ensures
        state.all_buried(dead).is_off(window),
    decreases dead.len(),
{
    if dead.len() > 0 {
        burying_stays_off(state, dead.drop_last(), window);
        space::lifted_leaves(state.all_buried(dead.drop_last()).elements, dead.last());
    }
}

proof fn showing_others_stays_off(state: State, list: Seq<SurfaceId>, window: SurfaceId)
    requires
        state.is_off(window),
        !list.contains(window),
    ensures
        state.all_shown(list).is_off(window),
    decreases list.len(),
{
    if list.len() > 0 {
        let rest = list.drop_last();
        assert(!rest.contains(window)) by {
            if rest.contains(window) {
                let k = choose|k: int| 0 <= k < rest.len() && rest[k] == window;
                assert(list[k] == window);
            }
        }
        assert(list[list.len() - 1] != window);
        showing_others_stays_off(state, rest, window);
        let before = state.all_shown(rest);
        mapping_another_stays_off(before, list.last(), before.initial_rect(list.last()), window);
    }
}

proof fn singling_stays_off(state: State, elements: Seq<Element>, window: SurfaceId)
    requires
        !space::stack(elements).contains(window),
    ensures
        !space::stack(state.single(elements)).contains(window),
    decreases elements.len(),
{
    if elements.len() > 0 {
        let rest = elements.drop_last();
        assert(!space::stack(rest).contains(window)) by {
            if space::stack(rest).contains(window) {
                let k = choose|k: int|
                    0 <= k < rest.len() && space::stack(rest)[k] == window;
                assert(space::stack(elements)[k] == window);
            }
        }
        assert(space::stack(elements)[elements.len() - 1] != window);
        singling_stays_off(state, rest, window);
        let before = state.single(rest);
        let after = state.single(elements);
        if space::stack(after).contains(window) {
            let k = choose|k: int| 0 <= k < after.len() && space::stack(after)[k] == window;
            if k < before.len() {
                assert(space::stack(before)[k] == window);
            }
        }
    }
}

proof fn clearing_doubles_keeps_elements(state: State, list: Seq<SurfaceId>)
    ensures
        state.doubles_cleared(list).elements == state.elements,
    decreases list.len(),
{
    if list.len() > 0 {
        clearing_doubles_keeps_elements(state, list.drop_last());
    }
}

proof fn raising_each_stays_off(state: State, list: Seq<SurfaceId>, window: SurfaceId)
    requires
        state.is_off(window),
    ensures
        state.each_raised(list).is_off(window),
    decreases list.len(),
{
    if list.len() > 0 {
        raising_each_stays_off(state, list.drop_last(), window);
        raising_stays_off(state.each_raised(list.drop_last()), list.last(), window);
    }
}

/// Restacking the windows brings none onto the screen.
pub proof fn restacking_stays_off(state: State, window: SurfaceId)
    requires
        state.is_off(window),
    ensures
        state.restacked().is_off(window),
{
    let stack = space::stack(state.elements);
    let tiled = state.sorted_out(stack, false);
    raising_each_stays_off(state, tiled, window);
    raising_each_stays_off(state.each_raised(tiled), state.sorted_out(stack, true), window);
}

proof fn floating_others_stays_off(state: State, list: Seq<SurfaceId>, window: SurfaceId)
    requires
        state.is_off(window),
        forall|i: int| 0 <= i < list.len() ==> #[trigger] list[i] != window,
    ensures
        state.floating_laid_out(list).is_off(window),
    decreases list.len(),
{
    if list.len() > 0 {
        let rest = list.drop_last();
        assert forall|i: int| 0 <= i < rest.len() implies #[trigger] rest[i] != window by {
            assert(list[i] == rest[i]);
        }
        floating_others_stays_off(state, rest, window);
        assert(list[list.len() - 1] != window);
        let before = state.floating_laid_out(rest);
        let rect = before.initial_rect(list.last());
        let given = before.with_assigned(list.last(), rect);
        mapping_another_stays_off(given, list.last(), rect, window);
    }
}

proof fn tiling_others_stays_off(
    state: State,
    windows: Seq<SurfaceId>,
    area: Rectangle,
    tiles: Seq<WindowGeometry>,
    count: nat,
    window: SurfaceId,
)
    requires
        state.is_off(window),
        count <= windows.len(),
        forall|i: int| 0 <= i < windows.len() ==> #[trigger] windows[i] != window,
    ensures
        state.tiles_laid_out(windows, area, tiles, count).is_off(window),
    decreases count,
{
    if count > 0 {
        tiling_others_stays_off(state, windows, area, tiles, (count - 1) as nat, window);
        let before = state.tiles_laid_out(windows, area, tiles, (count - 1) as nat);
        let other = windows[count - 1];
        let target = geometry::placed(area, tiles[count - 1]);
        let given = before.with_assigned(other, target);
        let told = given.tiled_asked(other, target.size, area.size);
        mapping_another_stays_off(given, other, target, window);
        mapping_another_stays_off(told, other, target, window);
    }
}

proof fn fullscreen_stays_off(state: State, output: OutputId, window: SurfaceId)
    requires
        state.is_off(window),
        !state.workspace_holds(state.current as int, window),
    ensures
        state.fullscreen_laid_out(output).0.is_off(window),
{
    if let Some(owner) = state.owner_window(state.current as int) {
        assert(owner != window);
        if let Some(target) = state.exclusive_rect(owner) {
            let given = state.with_assigned(owner, target);
            let told = given.fullscreen_asked(owner, true, Some(target));
            mapping_another_stays_off(given, owner, target, window);
            mapping_another_stays_off(told, owner, target, window);
            raising_stays_off(given, owner, window);
            raising_stays_off(told, owner, window);
            raising_stays_off(given.mapped_to(owner, target, false), owner, window);
            raising_stays_off(told.mapped_to(owner, target, false), owner, window);
        }
    }
}

proof fn laying_out_stays_off(
    state: State,
    windows: Seq<SurfaceId>,
    area: Rectangle,
    window: SurfaceId,
)
    requires
        state.is_off(window),
        !windows.contains(window),
    ensures
        state.windows_laid_out(windows, area).is_off(window),
{
    let floating = state.sorted_out(windows, true);
    laws::sorted_out_is_part(state, windows, true);
    assert forall|i: int| 0 <= i < floating.len() implies #[trigger] floating[i] != window by {
        assert(windows.contains(floating[i]));
    }
    floating_others_stays_off(state, floating, window);
    let placed = state.floating_laid_out(floating);
    restacking_stays_off(placed, window);
    let tiled = placed.sorted_out(windows, false);
    laws::sorted_out_is_part(placed, windows, false);
    assert forall|i: int| 0 <= i < tiled.len() implies #[trigger] tiled[i] != window by {
        assert(windows.contains(tiled[i]));
    }
    let tiles = space::tiles_for(placed.layouts, area.size, tiled.len());
    let count = if tiled.len() < tiles.len() {
        tiled.len()
    } else {
        tiles.len()
    };
    tiling_others_stays_off(placed, tiled, area, tiles, count, window);
    restacking_stays_off(placed.tiles_laid_out(tiled, area, tiles, count), window);
}

/// A layout brings no window onto the screen that the current workspace does not hold.
pub proof fn layout_shows_current(state: State, window: SurfaceId)
    requires
        state.orderly(),
        !state.on_screen(window),
        state.toplevel(window).live,
        !state.workspace_holds(state.current as int, window),
    ensures
        !state.laid_out().0.on_screen(window),
{
    reveal(State::laid_out);
    space::place_of_finds(state.elements, window);
    laws::pruning_stays_orderly(state);
    staying::pruning_keeps_live(state);
    burying_stays_off(state, state.dead_windows(), window);
    let pruned = state.pruned();
    let list = pruned.mapped[pruned.current as int];
    assert(!pruned.workspace_holds(pruned.current as int, window));
    showing_others_stays_off(pruned, list, window);
    let all = pruned.all_shown(list);
    assert forall|i: int| 0 <= i < list.len() implies lists::listed(
        pruned.mapped,
        #[trigger] list[i],
    ) by {
        assert(pruned.mapped[pruned.current as int].contains(list[i]));
    }
    laws::showing_all_keeps(pruned, list);
    clearing_doubles_keeps_elements(all, all.buffered(space::stack(all.elements)));
    singling_stays_off(all, all.elements, window);
    let shown = all.singled();
    assert(shown.is_off(window));
    laws::orderly_by_lists(pruned, all);
    layout::singles_stay(all);
    assert(!shown.workspace_holds(shown.current as int, window));
    let windows = shown.buffered(space::stack(shown.elements));
    laws::buffered_is_part(shown, space::stack(shown.elements));
    assert(!windows.contains(window)) by {
        if windows.contains(window) {
            let k = choose|k: int| 0 <= k < windows.len() && windows[k] == window;
            assert(space::stack(shown.elements).contains(windows[k]));
        }
    }
    if shown.outputs.len() > 0 {
        if let Some(whole) = shown.outputs[0].geometry {
            fullscreen_stays_off(shown, shown.outputs[0].id, window);
            let owned = shown.fullscreen_laid_out(shown.outputs[0].id).0;
            let area = geometry::usable(shown.outputs[0].work_area, whole);
            laying_out_stays_off(owned, windows, area, window);
        }
    }
    space::place_of_finds(state.laid_out().0.elements, window);
}

} // verus!
