//! Laws of where windows are meant to go: a new tiled window is told the tile that it will get, a floating
//! one starts in the middle, and one that begins to float stays where it is.

use crate::geometry;
use crate::geometry::{Rectangle, WindowGeometry};
use crate::state::keeping;
use crate::state::laws;
use crate::state::lists;
use crate::state::lists::SurfaceId;
use crate::state::placement;
use crate::state::raven::State;
use crate::state::settling;
use crate::state::space;
use crate::state::tiling_laws;
use vstd::prelude::*;

verus! {

proof fn tile_of_finds(windows: Seq<SurfaceId>, tiles: Seq<WindowGeometry>, at: int)
    requires
        windows.no_duplicates(),
        0 <= at < windows.len(),
        at < tiles.len(),
    ensures
        placement::tile_of(windows, tiles, windows[at]) == Some(tiles[at]),
    decreases at,
{
    if at > 0 {
        let rest = windows.skip(1);
        assert(windows[0] != windows[at]);
        assert(rest.no_duplicates());
        assert(rest[at - 1] == windows[at]);
        assert(tiles.skip(1)[at - 1] == tiles[at]);
        tile_of_finds(rest, tiles.skip(1), at - 1);
    }
}

proof fn firsts_of_single(list: Seq<SurfaceId>)
    requires
        list.no_duplicates(),
    ensures
        lists::firsts(list) == list,
    decreases list.len(),
{
    if list.len() > 0 {
        let rest = list.drop_last();
        assert(rest.no_duplicates());
        firsts_of_single(rest);
        assert(!rest.contains(list.last())) by {
            if rest.contains(list.last()) {
                let k = choose|k: int| 0 <= k < rest.len() && rest[k] == list.last();
                assert(list[k] == list[list.len() - 1]);
            }
        }
        assert(rest.push(list.last()) =~= list);
    }
}

proof fn tiled_on_screen_is_filter(state: State, list: Seq<SurfaceId>)
    ensures
        state.tiled_on_screen(list) == list.filter(
            |window: SurfaceId|
                !state.floats(window) && state.toplevel(window).live && state.toplevel(
                    window,
                ).has_buffer,
        ),
    decreases list.len(),
{
    reveal(Seq::filter);
    if list.len() > 0 {
        tiled_on_screen_is_filter(state, list.drop_last());
    }
}

proof fn tiled_on_workspace_is_filter(state: State, list: Seq<SurfaceId>)
    ensures
        state.tiled_on_workspace(list) == list.filter(
            |window: SurfaceId|
                !state.floats(window) && !state.unmapped_marks.contains(window) && state.toplevel(
                    window,
                ).live,
        ),
    decreases list.len(),
{
    reveal(Seq::filter);
    if list.len() > 0 {
        tiled_on_workspace_is_filter(state, list.drop_last());
    }
}

/// A new window that is to be tiled is told beforehand of the place that it will get: that of the tile
/// after those of the windows that are tiled now, in the arrangement for one more.
pub proof fn new_window_is_told_its_tile(
    state: State,
    window: SurfaceId,
    area: Rectangle,
    tiles: Seq<WindowGeometry>,
)
    requires
        state.orderly(),
        state.all_alive(),
        !state.on_screen(window),
        !state.floats(window),
        state.is_free(area),
        forall|i: int|
            0 <= i < state.mapped[state.current as int].len() ==> state.on_screen(
                #[trigger] state.mapped[state.current as int][i],
            ),
        state.arranges(area, state.to_tile(None).len() + 1, tiles),
        state.to_tile(None).len() < tiles.len(),
    ensures
        ({
            let tile = tiles[state.to_tile(None).len() as int];
            let slot = state.coming_slot(window);
            &&& slot is Some
            &&& slot.unwrap().1 == area.size
            &&& tile.width <= i32::MAX ==> slot.unwrap().0.size.w == tile.width
            &&& tile.height <= i32::MAX ==> slot.unwrap().0.size.h == tile.height
            &&& i32::MIN <= area.loc.x + tile.x_coordinate <= i32::MAX ==> slot.unwrap().0.loc.x
                == area.loc.x + tile.x_coordinate
            &&& i32::MIN <= area.loc.y + tile.y_coordinate <= i32::MAX ==> slot.unwrap().0.loc.y
                == area.loc.y + tile.y_coordinate
        }),
{
    let stack = space::stack(state.elements);
    let list = state.mapped[state.current as int];
    let tiled = state.to_tile(None);
    tiling_laws::none_are_left(list, |one: SurfaceId| !state.on_screen(one));
    assert(stack + list.filter(|one: SurfaceId| !state.on_screen(one)) =~= stack);
    tiled_on_screen_is_filter(state, stack);
    assert forall|i: int| 0 <= i < stack.len() implies state.toplevel(#[trigger] stack[i]).live by {
        assert(stack.contains(stack[i]));
        assert(lists::listed(state.mapped, stack[i]));
    }
    settling::filters_agree(
        stack,
        |one: SurfaceId|
            !state.floats(one) && state.toplevel(one).live && state.toplevel(one).has_buffer,
        |one: SurfaceId|
            state.toplevel(one).has_buffer && !state.floats(one) && Some(one) != None::<SurfaceId>,
    );
    assert(state.tiled_on_screen(stack) == tiled);
    settling::stack_is_single(state.elements);
    settling::filter_keeps_single(
        stack,
        |one: SurfaceId|
            state.toplevel(one).has_buffer && !state.floats(one) && Some(one) != None::<SurfaceId>,
    );
    space::place_of_finds(state.elements, window);
    let windows = tiled.push(window);
    assert(!tiled.contains(window));
    assert(windows.no_duplicates());
    firsts_of_single(windows);
    let k = choose|k: int|
        0 <= k < state.layouts.len() && (#[trigger] state.layouts[k]).0 == area.size
            && state.layouts[k].1 == tiled.len() + 1 && state.layouts[k].2 == tiles && forall|
            j: int,
        |
            0 <= j < k ==> !((#[trigger] state.layouts[j]).0 == area.size && state.layouts[j].1
                == tiled.len() + 1);
    tiling_laws::first_arrangement_counts(state.layouts, area.size, tiled.len() + 1, k);
    tile_of_finds(windows, tiles, tiled.len() as int);
    assert(state.first_area() == Some(area));
}

/// A window that begins to float stays where it is: it stands where it stood, in the place that it was
/// given.
pub proof fn rising_window_stays(
    state: State,
    window: SurfaceId,
    area: Rectangle,
    place: Rectangle,
)
    requires
        state.orderly(),
        state.all_alive(),
        state.keyboard_focus == Some(window),
        state.settled_in(window, place),
        state.toplevel(window).has_buffer,
        !state.floats(window),
        !state.exclusive(window),
        state.slot(state.current as int) is None,
        state.is_free(area),
    ensures
        state.floating_toggled().1 is Ok,
        state.floating_toggled().0.stands(window, place.loc),
        state.floating_toggled().0.assigned.contains_key(window),
        state.floating_toggled().0.assigned[window].loc == place.loc,
        state.floating_toggled().0.assigned[window].size == state.toplevel(window).geometry,
{
    reveal(State::floating_toggled);
    settling::standing_is_found(state.elements, window, place.loc);
    let set = state.with_floating(window, true);
    assert(set.keeps_places(state));
    laws::telling_stays_orderly(state, set);
    keeping::telling_keeps(state, set);
    assert(set.exclusive_mode(window) == state.exclusive_mode(window)) by {
        assert(set.workspace_of(window) == state.workspace_of(window));
        assert(set.toplevel(window) == state.toplevel(window));
    }
    assert(set.initial_rect(window) == place);
    let shown = set.mapped_to(window, place, true);
    keeping::shown_is_mapped(set, window);
    keeping::mapping_keeps(set, window, place, true);
    laws::orderly_by_lists(set, shown);
    assert(shown.all_alive()) by {
        assert forall|other: SurfaceId|
            #![trigger shown.toplevel(other)]
            lists::listed(shown.mapped, other) || lists::listed(
                shown.unmapped,
                other,
            ) implies shown.toplevel(other).live by {
            assert(set.toplevel(other).live);
        }
    }
    assert(shown.floats(window)) by {
        if !state.floating.contains(window) {
            assert(set.floating[set.floating.len() - 1] == window);
        }
    }
    assert(shown.stands(window, place.loc)) by {
        assert(shown.elements[shown.elements.len() - 1] == (space::Element {
            window,
            location: place.loc,
        }));
    }
    settling::activating_keeps_sizes(
        set.toplevels,
        space::stack(shown.elements),
        Some(window),
        window,
    );
    assert(shown.toplevel(window) == crate::state::windows::known(shown.toplevels, window));
    assert(set.toplevel(window) == crate::state::windows::known(set.toplevels, window));
    assert(shown.toplevel(window).has_buffer == set.toplevel(window).has_buffer);
    tiling_laws::layout_leaves_floating(shown, area, window, place.loc);
}

/// A floating window that was given no place yet comes onto the screen in the middle of what is free of
/// the output that the pointer is on, or of the first: as much room is left on one side as on the other,
/// but for one pixel.
pub proof fn floating_window_starts_in_the_middle(
    state: State,
    window: SurfaceId,
    area: Rectangle,
)
    requires
        state.sound(),
        state.pointer_output is None,
        state.floats(window),
        !state.exclusive(window),
        !state.assigned.contains_key(window),
        state.is_free(area),
        area.loc.x + area.size.w <= i32::MAX,
        area.loc.y + area.size.h <= i32::MAX,
        state.toplevel(window).fixed_size() is None,
        1 <= state.toplevel(window).geometry.w <= area.size.w,
        1 <= state.toplevel(window).geometry.h <= area.size.h,
    ensures
        ({
            let rect = state.initial_rect(window);
            let left = rect.loc.x - area.loc.x;
            let right = area.loc.x + area.size.w - (rect.loc.x + rect.size.w);
            let above = rect.loc.y - area.loc.y;
            let below = area.loc.y + area.size.h - (rect.loc.y + rect.size.h);
            &&& rect.size == state.toplevel(window).geometry
            &&& 0 <= left <= right <= left + 1
            &&& 0 <= above <= below <= above + 1
        }),
{
    assert(state.outputs[0].geometry is Some);
    assert(area.size.roomy());
    geometry::centered_window_is_in_the_middle(area, state.toplevel(window).geometry);
    geometry::centered_window_is_inside(area, state.toplevel(window).geometry);
    assert(state.floating_area() == Some(area));
}

proof fn burying_keeps_focus(state: State, dead: Seq<SurfaceId>)
    ensures
        state.all_buried(dead).keyboard_focus == state.keyboard_focus,
    decreases dead.len(),
{
    if dead.len() > 0 {
        burying_keeps_focus(state, dead.drop_last());
    }
}

proof fn raising_keeps_focus(state: State, list: Seq<SurfaceId>)
    ensures
        state.each_raised(list).keyboard_focus == state.keyboard_focus,
    decreases list.len(),
{
    if list.len() > 0 {
        raising_keeps_focus(state, list.drop_last());
    }
}

proof fn restacking_keeps_focus(state: State)
    ensures
        state.restacked().keyboard_focus == state.keyboard_focus,
{
    let stack = space::stack(state.elements);
    let tiled = state.sorted_out(stack, false);
    raising_keeps_focus(state, tiled);
    raising_keeps_focus(state.each_raised(tiled), state.sorted_out(stack, true));
}

proof fn tiling_keeps_focus(
    state: State,
    windows: Seq<SurfaceId>,
    area: Rectangle,
    tiles: Seq<WindowGeometry>,
    count: nat,
)
    ensures
        state.tiles_laid_out(windows, area, tiles, count).keyboard_focus == state.keyboard_focus,
    decreases count,
{
    if count > 0 {
        tiling_keeps_focus(state, windows, area, tiles, (count - 1) as nat);
    }
}

/// A layout leaves the keyboard where it is.
pub proof fn layout_keeps_focus(state: State)
    requires
        state.orderly(),
    ensures
        state.laid_out().0.keyboard_focus == state.keyboard_focus,
{
    reveal(State::laid_out);
    laws::pruning_stays_orderly(state);
    burying_keeps_focus(state, state.dead_windows());
    let pruned = state.pruned();
    let list = pruned.mapped[pruned.current as int];
    settling::showing_stacks(pruned, list);
    let shown = pruned.all_shown(list);
    crate::state::layout::singles_stay(shown);
    let windows = shown.buffered(space::stack(shown.elements));
    if shown.outputs.len() > 0 {
        if let Some(whole) = shown.outputs[0].geometry {
            let (owned, done) = shown.fullscreen_laid_out(shown.outputs[0].id);
            assert(owned.keyboard_focus == state.keyboard_focus);
            if !done {
                assert(owned.elements == shown.elements);
                let area = geometry::usable(shown.outputs[0].work_area, whole);
                settling::floating_keeps_rest(owned, owned.sorted_out(windows, true));
                let placed = owned.floating_laid_out(owned.sorted_out(windows, true));
                let tiled = placed.sorted_out(windows, false);
                let tiles = space::tiles_for(placed.layouts, area.size, tiled.len());
                let count = if tiled.len() < tiles.len() {
                    tiled.len()
                } else {
                    tiles.len()
                };
                tiling_keeps_focus(placed, tiled, area, tiles, count);
                restacking_keeps_focus(placed);
                restacking_keeps_focus(placed.tiles_laid_out(tiled, area, tiles, count));
            }
        }
    }
}

/// A window that lost its picture stays on the workspace where it was, among those that wait; every other
/// window stays where it is.
pub proof fn demoted_window_keeps_its_workspace(state: State, window: SurfaceId, other: SurfaceId)
    requires
        state.orderly(),
        lists::listed(state.mapped, window),
        other != window,
    ensures
        state.demoted(window).workspace_of(window) == state.workspace_of(window),
        !lists::listed(state.demoted(window).mapped, window),
        lists::listed(state.demoted(window).unmapped, window),
        state.demoted(window).workspace_of(other) == state.workspace_of(other),
{
    let after = state.demoted(window);
    lists::index_of_finds(state.mapped, window);
    let index = lists::index_of(state.mapped, window).unwrap() as int;
    lists::removed_keeps(state.mapped, window);
    lists::index_of_finds(state.unmapped, window);
    assert forall|i: int| 0 <= i < state.unmapped.len() implies !#[trigger] state.unmapped[i].contains(
        window,
    ) by {
        if state.unmapped[i].contains(window) {
            assert(lists::listed(state.unmapped, window));
        }
    }
    lists::added_keeps(state.unmapped, index, window);
    lists::index_of_finds(after.mapped, window);
    assert(after.unmapped[index].contains(window));
    lists::index_of_is_only(after.unmapped, window, index);
    lists::index_of_finds(after.unmapped, window);
    lists::index_of_finds(state.mapped, other);
    lists::index_of_finds(after.mapped, other);
    lists::index_of_finds(state.unmapped, other);
    lists::index_of_finds(after.unmapped, other);
    same_index(state.mapped, after.mapped, other);
    same_index(state.unmapped, after.unmapped, other);
}

proof fn same_index(one: Seq<Seq<SurfaceId>>, two: Seq<Seq<SurfaceId>>, window: SurfaceId)
    requires
        one.len() == two.len() <= usize::MAX,
        forall|i: int|
            #![trigger one[i]]
            #![trigger two[i]]
            0 <= i < one.len() ==> (one[i].contains(window) <==> two[i].contains(window)),
    ensures
        lists::index_of(one, window) == lists::index_of(two, window),
{
    lists::index_of_finds(one, window);
    lists::index_of_finds(two, window);
    if let Some(first) = lists::index_of(one, window) {
        assert(two[first as int].contains(window));
        if let Some(second) = lists::index_of(two, window) {
            assert(one[second as int].contains(window));
        }
    }
}

/// A window that is taken off the workspaces is on none and does not float; every other one stays where it
/// is.
pub proof fn removed_window_is_nowhere(state: State, window: SurfaceId, other: SurfaceId)
    requires
        state.orderly(),
        other != window,
    ensures
        state.without_window(window).workspace_of(window) is None,
        !state.without_window(window).floats(window),
        state.without_window(window).workspace_of(other) == state.workspace_of(other),
        state.without_window(window).floats(other) == state.floats(other),
{
    let after = state.without_window(window);
    lists::removed_keeps(state.mapped, window);
    lists::removed_keeps(state.unmapped, window);
    lists::without_leaves(state.floating, window);
    lists::index_of_finds(after.mapped, window);
    lists::index_of_finds(after.unmapped, window);
    same_index(state.mapped, after.mapped, other);
    same_index(state.unmapped, after.unmapped, other);
}

proof fn telling_marks(state: State, list: Seq<SurfaceId>, focused: Option<SurfaceId>, at: int)
    requires
        list.no_duplicates(),
        0 <= at < list.len(),
    ensures
        state.activation_told(list, focused).toplevel(list[at]).pending.activated == (focused
            == Some(list[at])),
    decreases list.len(),
{
    let rest = list.drop_last();
    if at < rest.len() {
        assert(rest.no_duplicates());
        assert(list[at] != list.last());
        telling_marks(state, rest, focused, at);
    }
}

/// Of the windows on the screen the focused one is active, and no other.
pub proof fn only_focused_is_active(state: State, focused: Option<SurfaceId>, window: SurfaceId)
    requires
        state.orderly(),
        state.on_screen(window),
    ensures
        state.activation_synced(focused).toplevel(window).pending.activated == (focused == Some(
            window,
        )),
{
    let stack = space::stack(state.elements);
    settling::stack_is_single(state.elements);
    space::place_of_finds(state.elements, window);
    let at = choose|at: int| 0 <= at < stack.len() && stack[at] == window;
    telling_marks(state, stack, focused, at);
}

} // verus!
