//! Laws of the layout: every tiled window gets its own part of what is free of the output, every
//! floating one keeps its place above them, and both hold again once a window has left.

use crate::geometry;
use crate::geometry::{Point, Rectangle, WindowGeometry};
use crate::state::fullscreen_laws;
use crate::state::keeping;
use crate::state::laws;
use crate::state::layout;
use crate::state::lists;
use crate::state::lists::SurfaceId;
use crate::state::raven::{State, WORKSPACE_COUNT};
use crate::state::settling;
use crate::state::showing;
use crate::state::space;
use crate::state::space::Layout;
use crate::state::workspace_laws;
use vstd::prelude::*;

verus! {

impl State {
    /// The windows that a layout tiles, but for one: those on the screen from the bottom to the top,
    /// then those of the current workspace that are not there yet. They have a buffer and do not
    /// float.
    pub open spec fn to_tile(self, but: Option<SurfaceId>) -> Seq<SurfaceId> {
        let waiting = self.mapped[self.current as int].filter(
            |window: SurfaceId| !self.on_screen(window),
        );
        (space::stack(self.elements) + waiting).filter(
            |window: SurfaceId|
                self.toplevel(window).has_buffer && !self.floats(window) && Some(window) != but,
        )
    }

    /// Whether `area` is what is free of the first output: its work area where that has room, else
    /// the whole of it.
    pub open spec fn is_free(self, area: Rectangle) -> bool {
        &&& self.outputs.len() > 0
        &&& self.outputs[0].geometry is Some
        &&& self.outputs[0].work_area.size.w > 0 && self.outputs[0].work_area.size.h > 0 ==> area
            == self.outputs[0].work_area
        &&& self.outputs[0].work_area.size.w <= 0 || self.outputs[0].work_area.size.h <= 0 ==> Some(
            area,
        ) == self.outputs[0].geometry
    }

    /// Whether `tiles` is the first arrangement of this many windows in an area of this size.
    pub open spec fn arranges(
        self,
        area: Rectangle,
        count: nat,
        tiles: Seq<WindowGeometry>,
    ) -> bool {
        exists|k: int|
            0 <= k < self.layouts.len() && (#[trigger] self.layouts[k]).0 == area.size
                && self.layouts[k].1 == count && self.layouts[k].2 == tiles && forall|j: int|
                0 <= j < k ==> !((#[trigger] self.layouts[j]).0 == area.size && self.layouts[j].1
                    == count)
    }

    /// Whether a window has its place in a tile of `area`: it was given the rectangle whose corner is
    /// the area's moved by the tile's coordinates and whose size is the tile's, it stands there, and
    /// its client is asked for that size unless the window has it.
    pub open spec fn fills_tile(
        self,
        window: SurfaceId,
        area: Rectangle,
        tile: WindowGeometry,
    ) -> bool {
        let rect = self.assigned[window];
        &&& self.assigned.contains_key(window)
        &&& self.stands(window, rect.loc)
        &&& i32::MIN <= area.loc.x + tile.x_coordinate <= i32::MAX ==> rect.loc.x == area.loc.x
            + tile.x_coordinate
        &&& i32::MIN <= area.loc.y + tile.y_coordinate <= i32::MAX ==> rect.loc.y == area.loc.y
            + tile.y_coordinate
        &&& tile.width <= i32::MAX ==> rect.size.w == tile.width
        &&& tile.height <= i32::MAX ==> rect.size.h == tile.height
        &&& self.toplevel(window).geometry != rect.size ==> self.toplevel(window).pending.size
            == Some(rect.size)
    }
}

/// The tiles that are looked up are those of the first arrangement that fits.
pub proof fn first_arrangement_counts(
    list: Seq<Layout>,
    area: geometry::Size,
    count: nat,
    k: int,
)
    requires
        0 <= k < list.len(),
        list[k].0 == area,
        list[k].1 == count,
        forall|j: int| 0 <= j < k ==> !((#[trigger] list[j]).0 == area && list[j].1 == count),
    ensures
        space::tiles_for(list, area, count) == list[k].2,
    decreases k,
{
    if k > 0 {
        let rest = list.skip(1);
        assert(!(list[0].0 == area && list[0].1 == count));
        assert(rest[k - 1] == list[k]);
        assert forall|j: int| 0 <= j < k - 1 implies !((#[trigger] rest[j]).0 == area && rest[j].1
            == count) by {
            assert(rest[j] == list[j + 1]);
        }
        first_arrangement_counts(rest, area, count, k - 1);
    }
}

/// Two states with the same arrangements arrange alike.
pub proof fn arrangement_stays(
    state: State,
    other: State,
    area: Rectangle,
    count: nat,
    tiles: Seq<WindowGeometry>,
)
    requires
        other.layouts == state.layouts,
        state.arranges(area, count, tiles),
    ensures
        other.arranges(area, count, tiles),
{
    let k = choose|k: int|
        0 <= k < state.layouts.len() && (#[trigger] state.layouts[k]).0 == area.size
            && state.layouts[k].1 == count && state.layouts[k].2 == tiles && forall|j: int|
            0 <= j < k ==> !((#[trigger] state.layouts[j]).0 == area.size && state.layouts[j].1
                == count);
    assert(other.layouts[k] == state.layouts[k]);
}

proof fn settled_fills_tile(state: State, window: SurfaceId, area: Rectangle, tile: WindowGeometry)
    requires
        state.settled_in(window, geometry::placed(area, tile)),
    ensures
        state.fills_tile(window, area, tile),
{
}

/// What the layout starts from while all windows are alive: those of the current workspace are on
/// the screen.
pub proof fn layout_start(state: State)
    requires
        state.orderly(),
        state.all_alive(),
    ensures
        ({
            let shown = state.all_shown(state.mapped[state.current as int]);
            &&& state.pruned() == state
            &&& shown.singled() == shown
            &&& space::one_each(shown.elements)
            &&& shown == (State { elements: shown.elements, assigned: shown.assigned, ..state })
            &&& shown.buffered(space::stack(shown.elements)).no_duplicates()
            &&& shown.buffered(space::stack(shown.elements)).filter(
                |window: SurfaceId| !shown.floats(window),
            ) == state.to_tile(None)
        }),
{
    laws::pruning_stays_orderly(state);
    let list = state.mapped[state.current as int];
    settling::showing_stacks(state, list);
    let shown = state.all_shown(list);
    layout::singles_stay(shown);
    let stack = space::stack(shown.elements);
    settling::stack_is_single(shown.elements);
    settling::buffered_is_filter(shown, stack);
    let has = |window: SurfaceId| shown.toplevel(window).has_buffer;
    settling::filters_agree(
        stack,
        |window: SurfaceId| shown.toplevel(window).has_buffer,
        has,
    );
    settling::filter_keeps_single(stack, has);
    let sits = |window: SurfaceId| !shown.floats(window);
    let both = |window: SurfaceId|
        state.toplevel(window).has_buffer && !state.floats(window) && Some(window) != None::<
            SurfaceId,
        >;
    settling::filter_twice(stack, has, sits, both);
    let old = space::stack(state.elements);
    let coming = |window: SurfaceId|
        !state.on_screen(window) && !state.unmapped_marks.contains(window) && state.toplevel(
            window,
        ).has_buffer;
    let away = |window: SurfaceId| !state.on_screen(window);
    settling::filters_agree(
        list,
        |window: SurfaceId|
            !state.on_screen(window) && !state.unmapped_marks.contains(window) && state.toplevel(
                window,
            ).has_buffer,
        coming,
    );
    assert(stack == old + list.filter(coming));
    Seq::filter_distributes_over_add(old, list.filter(coming), both);
    Seq::filter_distributes_over_add(old, list.filter(away), both);
    let all = |window: SurfaceId|
        !state.on_screen(window) && state.toplevel(window).has_buffer && !state.floats(window);
    assert forall|i: int| 0 <= i < list.len() implies !state.unmapped_marks.contains(
        #[trigger] list[i],
    ) by {
        assert(state.mapped[state.current as int].contains(list[i]));
        assert(lists::listed(state.mapped, list[i]));
    }
    settling::filter_twice(list, coming, both, all);
    settling::filter_twice(list, away, both, all);
    settling::filters_agree(list, |window: SurfaceId| !state.on_screen(window), away);
    settling::filters_agree(
        old + list.filter(away),
        |window: SurfaceId|
            state.toplevel(window).has_buffer && !state.floats(window) && Some(window) != None::<
                SurfaceId,
            >,
        both,
    );
    settling::filters_agree(
        shown.buffered(stack),
        |window: SurfaceId| !shown.floats(window),
        sits,
    );
}

/// The layout while no window of the current workspace is fullscreen.
proof fn layout_without_fullscreen(state: State, area: Rectangle)
    requires
        state.orderly(),
        state.all_alive(),
        state.slot(state.current as int) is None,
        state.is_free(area),
        state.all_shown(state.mapped[state.current as int]).buffered(
            space::stack(state.all_shown(state.mapped[state.current as int]).elements),
        ).len() > 0,
    ensures
        ({
            let shown = state.all_shown(state.mapped[state.current as int]);
            state.laid_out() == (
                shown.windows_laid_out(shown.buffered(space::stack(shown.elements)), area),
                Ok::<(), crate::errors::Failure>(()),
            )
        }),
{
    reveal(State::laid_out);
    layout_start(state);
    let shown = state.all_shown(state.mapped[state.current as int]);
    assert(shown.owner_window(shown.current as int) is None);
}

/// Every tiled window has its place in its tile once the screen is laid out.
pub proof fn layout_settles_tiles(
    state: State,
    area: Rectangle,
    tiles: Seq<WindowGeometry>,
    at: int,
)
    requires
        state.orderly(),
        state.all_alive(),
        state.slot(state.current as int) is None,
        state.is_free(area),
        state.arranges(area, state.to_tile(None).len(), tiles),
        0 <= at < state.to_tile(None).len(),
        at < tiles.len(),
    ensures
        state.laid_out().1 is Ok,
        state.laid_out().0.settled_in(state.to_tile(None)[at], geometry::placed(area, tiles[at])),
        state.laid_out().0.fills_tile(state.to_tile(None)[at], area, tiles[at]),
        space::one_each(state.laid_out().0.elements),
{
    layout_start(state);
    let shown = state.all_shown(state.mapped[state.current as int]);
    let windows = shown.buffered(space::stack(shown.elements));
    let tiled = state.to_tile(None);
    assert(windows.len() > 0) by {
        settling::filter_keeps_single(windows, |window: SurfaceId| !shown.floats(window));
        assert(tiled.contains(tiled[at]));
        assert(windows.contains(tiled[at]));
    }
    layout_without_fullscreen(state, area);
    let k = choose|k: int|
        0 <= k < state.layouts.len() && (#[trigger] state.layouts[k]).0 == area.size
            && state.layouts[k].1 == tiled.len() && state.layouts[k].2 == tiles && forall|j: int|
            0 <= j < k ==> !((#[trigger] state.layouts[j]).0 == area.size && state.layouts[j].1
                == tiled.len());
    first_arrangement_counts(state.layouts, area.size, tiled.len(), k);
    settling::tiled_windows_settle(shown, windows, tiled, area, at);
    settled_fills_tile(state.laid_out().0, tiled[at], area, tiles[at]);
}

/// A layout of a workspace without a fullscreen window succeeds, and gives every tiled window its
/// own tile: the first one the first tile of the arrangement for as many windows as there are, and
/// so on. The window is given the tile's size, and its corner is that of the free area moved by the
/// tile's coordinates.
pub proof fn layout_fills_tiles(
    state: State,
    area: Rectangle,
    tiles: Seq<WindowGeometry>,
    at: int,
)
    requires
        state.orderly(),
        state.all_alive(),
        state.slot(state.current as int) is None,
        state.is_free(area),
        state.arranges(area, state.to_tile(None).len(), tiles),
        0 <= at < state.to_tile(None).len(),
        at < tiles.len(),
    ensures
        state.laid_out().1 is Ok,
        state.laid_out().0.fills_tile(state.to_tile(None)[at], area, tiles[at]),
{
    layout_settles_tiles(state, area, tiles, at);
}

/// Where the tile of a window lies within the size of the free area, the window lies within that
/// area once the screen is laid out.
pub proof fn tiled_window_is_in_area(
    state: State,
    area: Rectangle,
    tiles: Seq<WindowGeometry>,
    at: int,
)
    requires
        state.orderly(),
        state.all_alive(),
        state.slot(state.current as int) is None,
        state.is_free(area),
        area.loc.x + area.size.w <= i32::MAX,
        area.loc.y + area.size.h <= i32::MAX,
        state.arranges(area, state.to_tile(None).len(), tiles),
        0 <= at < state.to_tile(None).len(),
        at < tiles.len(),
        0 <= tiles[at].x_coordinate,
        tiles[at].x_coordinate + tiles[at].width <= area.size.w,
        0 <= tiles[at].y_coordinate,
        tiles[at].y_coordinate + tiles[at].height <= area.size.h,
    ensures
        ({
            let rect = state.laid_out().0.assigned[state.to_tile(None)[at]];
            &&& area.loc.x <= rect.loc.x
            &&& area.loc.y <= rect.loc.y
            &&& rect.loc.x + rect.size.w <= area.loc.x + area.size.w
            &&& rect.loc.y + rect.size.h <= area.loc.y + area.size.h
            &&& state.laid_out().0.stands(state.to_tile(None)[at], rect.loc)
        }),
{
    layout_fills_tiles(state, area, tiles, at);
}

/// A layout leaves a floating window of a workspace without a fullscreen window where it stands,
/// with the size that it has.
pub proof fn layout_leaves_floating(
    state: State,
    area: Rectangle,
    window: SurfaceId,
    location: Point,
)
    requires
        state.orderly(),
        state.all_alive(),
        state.slot(state.current as int) is None,
        state.is_free(area),
        state.stands(window, location),
        state.floats(window),
        state.toplevel(window).has_buffer,
    ensures
        state.laid_out().1 is Ok,
        state.laid_out().0.stands(window, location),
        state.laid_out().0.assigned.contains_key(window),
        state.laid_out().0.assigned[window].loc == location,
        state.laid_out().0.assigned[window].size == state.toplevel(window).geometry,
{
    layout_start(state);
    let list = state.mapped[state.current as int];
    let shown = state.all_shown(list);
    settling::showing_stacks(state, list);
    assert(shown.stands(window, location));
    let stack = space::stack(shown.elements);
    let windows = shown.buffered(stack);
    assert(windows.contains(window)) by {
        settling::stack_is_single(shown.elements);
        settling::buffered_is_filter(shown, stack);
        settling::filter_keeps_single(stack, |other: SurfaceId| shown.toplevel(other).has_buffer);
        settling::standing_is_found(shown.elements, window, location);
        space::place_of_finds(shown.elements, window);
    }
    layout_without_fullscreen(state, area);
    settling::standing_is_found(state.elements, window, location);
    keeping::shown_is_mapped(state, window);
    settling::floating_windows_settle(shown, windows, area, window, location);
}

/// Once the screen is laid out, every window above a floating one floats, while a window is tiled
/// and none is fullscreen.
pub proof fn floating_is_above_tiled(state: State, area: Rectangle, low: int, high: int)
    requires
        state.orderly(),
        state.all_alive(),
        state.slot(state.current as int) is None,
        state.is_free(area),
        state.to_tile(None).len() > 0,
        0 <= low < high < state.laid_out().0.elements.len(),
        state.floats(state.laid_out().0.elements[low].window),
    ensures
        state.floats(state.laid_out().0.elements[high].window),
{
    layout_start(state);
    let shown = state.all_shown(state.mapped[state.current as int]);
    let windows = shown.buffered(space::stack(shown.elements));
    let tiled = state.to_tile(None);
    settling::filter_keeps_single(windows, |window: SurfaceId| !shown.floats(window));
    assert(tiled.contains(tiled[0]));
    layout_without_fullscreen(state, area);
    let placed = shown.floating_laid_out(shown.sorted_out(windows, true));
    settling::floating_keeps_rest(shown, shown.sorted_out(windows, true));
    settling::sorted_out_is_filter(placed, windows, false);
    settling::filters_agree(
        windows,
        |window: SurfaceId| placed.floats(window) == false,
        |window: SurfaceId| !shown.floats(window),
    );
    let tiles = space::tiles_for(placed.layouts, area.size, tiled.len());
    let count = if tiled.len() < tiles.len() {
        tiled.len()
    } else {
        tiles.len()
    };
    settling::tiles_stay_single(placed, tiled, area, tiles, count);
    let settled = placed.tiles_laid_out(tiled, area, tiles, count);
    tiles_keep_owners(placed, tiled, area, tiles, count);
    settling::restacking_sorts(settled, low, high);
}

proof fn tiles_keep_owners(
    state: State,
    windows: Seq<SurfaceId>,
    area: Rectangle,
    tiles: Seq<WindowGeometry>,
    count: nat,
)
    ensures
        state.tiles_laid_out(windows, area, tiles, count).owners == state.owners,
        state.tiles_laid_out(windows, area, tiles, count).floating == state.floating,
        state.tiles_laid_out(windows, area, tiles, count).current == state.current,
    decreases count,
{
    if count > 0 {
        tiles_keep_owners(state, windows, area, tiles, (count - 1) as nat);
    }
}

/// What the move of a mapped window away from the current workspace leaves there.
proof fn moving_away_leaves(state: State, window: SurfaceId, target: int)
    requires
        state.orderly(),
        state.mapped[state.current as int].contains(window),
        0 <= target < WORKSPACE_COUNT,
        target != state.current,
    ensures
        ({
            let moved = state.moved_to_workspace(window, target).0;
            &&& moved.elements == space::lifted(state.elements, window)
            &&& moved.mapped[state.current as int] == lists::without(
                state.mapped[state.current as int],
                window,
            )
            &&& moved.mapped[target].contains(window)
            &&& moved.floating == state.floating
            &&& moved.layouts == state.layouts
            &&& moved.outputs == state.outputs
            &&& moved.current == state.current
            &&& moved.keyboard_focus == state.keyboard_focus
            &&& (state.slot(state.current as int) matches Some(slot) ==> slot.surface == window)
                ==> moved.slot(state.current as int) is None
        }),
{
    reveal(State::moved_to_workspace);
    reveal(State::owner_moved);
    keeping::holder_is_only(state, window, state.current as int);
    assert(lists::listed(state.mapped, window));
    lists::index_of_finds(state.unmapped, window);
    lists::index_of_finds(state.mapped, window);
    lists::index_of_is_only(state.mapped, window, state.current as int);
    workspace_laws::owner_of_finds(state.owners, window, 0);
    let source = state.current as int;
    lists::without_leaves(state.mapped[target], window);
    let there = lists::with(lists::without(state.mapped[target], window), window);
    assert(there.contains(window)) by {
        if !lists::without(state.mapped[target], window).contains(window) {
            assert(there[there.len() - 1] == window);
        }
    }
    assert forall|i: int|
        0 <= i < state.owners.len() && (#[trigger] state.owners[i]) is Some
            && state.owners[i].unwrap().surface == window implies i == source by {
        assert(state.workspace_holds(i, window));
    }
}

/// Giving the keyboard to a window on the screen brings no other there.
pub proof fn refocusing_stays_off(state: State, window: SurfaceId)
    requires
        state.is_off(window),
    ensures
        state.refocused().is_off(window),
{
    reveal(State::refocused);
    reveal(State::focus_set);
    fullscreen_laws::activation_keeps_places(
        state,
        space::stack(state.elements),
        state.keyboard_focus,
    );
    let target = state.next_focus();
    let focused = match target {
        Some(surface) => if state.has_window(surface) {
            Some(surface)
        } else {
            None
        },
        None => None,
    };
    fullscreen_laws::activation_keeps_places(state, space::stack(state.elements), focused);
    if let Some(surface) = target {
        showing::raising_stays_off(state, surface, window);
        showing::restacking_stays_off(state.raised(surface), window);
        let layered = state.raised_in_layer(surface);
        fullscreen_laws::activation_keeps_places(
            layered,
            space::stack(layered.elements),
            focused,
        );
    }
}

/// The windows that a layout tiles once a window has left the current workspace are those that it
/// would have tiled but for that window.
pub proof fn leaving_tiles_rest(state: State, after: State, window: SurfaceId)
    requires
        after.elements == space::lifted(state.elements, window),
        after.mapped[after.current as int] == lists::without(
            state.mapped[state.current as int],
            window,
        ),
        after.lives_like(state),
        forall|other: SurfaceId|
            other != window ==> #[trigger] after.floats(other) == state.floats(other),
    ensures
        after.to_tile(None) == state.to_tile(Some(window)),
{
    let list = state.mapped[state.current as int];
    let stack = space::stack(state.elements);
    let other = |one: SurfaceId| one != window;
    settling::lifted_is_filter(state.elements, window);
    settling::filters_agree(stack, |one: SurfaceId| one != window, other);
    settling::without_is_filter(list, window);
    settling::filters_agree(list, |one: SurfaceId| one != window, other);
    let away = |one: SurfaceId| !state.on_screen(one);
    let gone = |one: SurfaceId| !after.on_screen(one);
    let sits = |one: SurfaceId|
        after.toplevel(one).has_buffer && !after.floats(one) && Some(one) != None::<SurfaceId>;
    let stays = |one: SurfaceId|
        state.toplevel(one).has_buffer && !state.floats(one) && Some(one) != Some(window);
    let all = |one: SurfaceId|
        !state.on_screen(one) && state.toplevel(one).has_buffer && !state.floats(one) && one
            != window;
    assert forall|one: SurfaceId| after.toplevel(one).has_buffer == state.toplevel(
        one,
    ).has_buffer by {}
    assert forall|one: SurfaceId| one != window implies after.on_screen(one) == state.on_screen(
        one,
    ) by {
        space::lifted_leaves(state.elements, window);
        space::place_of_finds(state.elements, one);
        space::place_of_finds(after.elements, one);
    }
    settling::filter_twice(stack, other, sits, stays);
    let rest = list.filter(other);
    let missing = |one: SurfaceId| !after.on_screen(one) && one != window;
    settling::filter_twice(list, other, gone, missing);
    settling::filter_twice(list, missing, sits, all);
    settling::filter_twice(list, away, stays, all);
    Seq::filter_distributes_over_add(stack.filter(other), rest.filter(gone), sits);
    Seq::filter_distributes_over_add(stack, list.filter(away), stays);
    settling::filters_agree(rest, |one: SurfaceId| !after.on_screen(one), gone);
    settling::filters_agree(list, |one: SurfaceId| !state.on_screen(one), away);
    settling::filters_agree(
        stack.filter(other) + rest.filter(gone),
        |one: SurfaceId|
            after.toplevel(one).has_buffer && !after.floats(one) && Some(one) != None::<SurfaceId>,
        sits,
    );
    settling::filters_agree(
        stack + list.filter(away),
        |one: SurfaceId|
            state.toplevel(one).has_buffer && !state.floats(one) && Some(one) != Some(window),
        stays,
    );
}

/// Two states with the same windows on the screen tile the same ones.
pub proof fn same_windows_are_tiled(state: State, after: State)
    requires
        after.elements == state.elements,
        after.mapped == state.mapped,
        after.current == state.current,
        after.floating == state.floating,
        forall|one: SurfaceId|
            after.toplevel(one).has_buffer == #[trigger] state.toplevel(one).has_buffer,
    ensures
        after.to_tile(None) == state.to_tile(None),
{
    let list = state.mapped[state.current as int];
    let away = |one: SurfaceId| !state.on_screen(one);
    settling::filters_agree(list, |one: SurfaceId| !after.on_screen(one), away);
    settling::filters_agree(list, |one: SurfaceId| !state.on_screen(one), away);
    let all = space::stack(state.elements) + list.filter(away);
    settling::filters_agree(
        all,
        |one: SurfaceId|
            after.toplevel(one).has_buffer && !after.floats(one) && Some(one) != None::<SurfaceId>,
        |one: SurfaceId|
            state.toplevel(one).has_buffer && !state.floats(one) && Some(one) != None::<SurfaceId>,
    );
}

/// The windows that a layout tiles once a window has come onto the screen of the current workspace are
/// those that it tiled before, and then that window.
pub proof fn coming_tiles_more(state: State, after: State, window: SurfaceId)
    requires
        !space::stack(state.elements).contains(window),
        space::stack(after.elements) == space::stack(state.elements).push(window),
        forall|i: int|
            0 <= i < after.mapped[after.current as int].len() ==> after.on_screen(
                #[trigger] after.mapped[after.current as int][i],
            ),
        forall|i: int|
            0 <= i < state.mapped[state.current as int].len() ==> state.on_screen(
                #[trigger] state.mapped[state.current as int][i],
            ),
        after.lives_like(state),
        after.floating == state.floating,
        state.toplevel(window).has_buffer,
        !state.floats(window),
    ensures
        after.to_tile(None) == state.to_tile(None).push(window),
{
    reveal(Seq::filter);
    let stack = space::stack(state.elements);
    let old = state.mapped[state.current as int];
    let new = after.mapped[after.current as int];
    none_are_left(old, |one: SurfaceId| !state.on_screen(one));
    none_are_left(new, |one: SurfaceId| !after.on_screen(one));
    assert(stack + old.filter(|one: SurfaceId| !state.on_screen(one)) =~= stack);
    assert(stack.push(window) + new.filter(|one: SurfaceId| !after.on_screen(one))
        =~= stack.push(window));
    let sits = |one: SurfaceId|
        state.toplevel(one).has_buffer && !state.floats(one) && Some(one) != None::<SurfaceId>;
    assert forall|one: SurfaceId| after.toplevel(one).has_buffer == state.toplevel(
        one,
    ).has_buffer by {}
    settling::filters_agree(
        stack,
        |one: SurfaceId|
            state.toplevel(one).has_buffer && !state.floats(one) && Some(one) != None::<SurfaceId>,
        sits,
    );
    settling::filters_agree(
        stack.push(window),
        |one: SurfaceId|
            after.toplevel(one).has_buffer && !after.floats(one) && Some(one) != None::<SurfaceId>,
        sits,
    );
    assert(stack.push(window).drop_last() =~= stack);
    assert(sits(window));
}

/// A filter that every entry fails leaves nothing.
pub proof fn none_are_left(list: Seq<SurfaceId>, kept: spec_fn(SurfaceId) -> bool)
    requires
        forall|i: int| 0 <= i < list.len() ==> !kept(#[trigger] list[i]),
    ensures
        list.filter(kept).len() == 0,
    decreases list.len(),
{
    reveal(Seq::filter);
    if list.len() > 0 {
        let rest = list.drop_last();
        assert forall|i: int| 0 <= i < rest.len() implies !kept(#[trigger] rest[i]) by {
            assert(rest[i] == list[i]);
        }
        none_are_left(rest, kept);
        assert(!kept(list[list.len() - 1]));
    }
}

/// Once the focused window of the current workspace is moved to another one, the tiled windows that
/// remain have the tiles of the arrangement for as many as they are, in the free area.
pub proof fn remaining_windows_fill_tiles(
    state: State,
    target: int,
    window: SurfaceId,
    area: Rectangle,
    tiles: Seq<WindowGeometry>,
    at: int,
)
    requires
        state.orderly(),
        state.all_alive(),
        state.keyboard_focus == Some(window),
        state.mapped[state.current as int].contains(window),
        0 <= target < WORKSPACE_COUNT,
        target != state.current,
        state.slot(state.current as int) matches Some(slot) ==> slot.surface == window,
        state.is_free(area),
        state.arranges(area, state.to_tile(Some(window)).len(), tiles),
        0 <= at < state.to_tile(Some(window)).len(),
        at < tiles.len(),
    ensures
        state.focused_moved(target).1 is Ok,
        state.focused_moved(target).0.fills_tile(state.to_tile(Some(window))[at], area, tiles[at]),
        !state.focused_moved(target).0.on_screen(window),
{
    reveal(State::focused_moved);
    keeping::holder_is_only(state, window, state.current as int);
    assert(lists::listed(state.mapped, window));
    workspace_laws::moving_stays_orderly(state, window, target);
    moving_away_leaves(state, window, target);
    let moved = state.moved_to_workspace(window, target).0;
    leaving_tiles_rest(state, moved, window);
    assert(state.toplevel(window).live);
    let tiled = moved.to_tile(None);
    layout_settles_tiles(moved, area, tiles, at);
    let laid_out = moved.laid_out().0;
    let place = geometry::placed(area, tiles[at]);
    settling::refocusing_leaves(laid_out, tiled[at], place);
    settled_fills_tile(laid_out.refocused(), tiled[at], area, tiles[at]);
    moving_away_takes_off(state, target, window);
}

/// Once the focused window of the current workspace is moved to another one, it is off the screen.
pub proof fn moving_away_takes_off(state: State, target: int, window: SurfaceId)
    requires
        state.orderly(),
        state.all_alive(),
        state.keyboard_focus == Some(window),
        state.mapped[state.current as int].contains(window),
        0 <= target < WORKSPACE_COUNT,
        target != state.current,
    ensures
        !state.focused_moved(target).0.on_screen(window),
        state.focused_moved(target).0.mapped[target].contains(window),
        state.focused_moved(target).0.current == state.current,
{
    reveal(State::focused_moved);
    reveal(State::moved_to_workspace);
    keeping::holder_is_only(state, window, state.current as int);
    assert(lists::listed(state.mapped, window));
    assert(state.toplevel(window).live);
    workspace_laws::moving_stays_orderly(state, window, target);
    let moved = state.moved_to_workspace(window, target).0;
    moving_away_leaves(state, window, target);
    space::lifted_leaves(state.elements, window);
    space::place_of_finds(moved.elements, window);
    assert(moved.workspace_holds(target, window));
    keeping::holder_is_only(moved, window, target);
    showing::layout_shows_current(moved, window);
    laws::layout_stays_orderly(moved);
    let laid_out = moved.laid_out().0;
    space::place_of_finds(laid_out.elements, window);
    refocusing_stays_off(laid_out, window);
    space::place_of_finds(laid_out.refocused().elements, window);
    fullscreen_laws::refocusing_stays_orderly(laid_out);
}

} // verus!
