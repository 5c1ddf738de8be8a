//! Laws of what comes and goes: the tiled windows of the current workspace fill their tiles again once
//! a window was closed or has lost its buffer, once one has come, and once a layer surface has changed
//! what is free.

use crate::geometry;
use crate::geometry::{Rectangle, WindowGeometry};
use crate::handlers::laws;
use crate::handlers::layer_shell;
use crate::handlers::layer_shell::LayerCommit;
use crate::state;
use crate::state::keeping;
use crate::state::lists;
use crate::state::lists::SurfaceId;
use crate::state::raven::State;
use crate::state::rules::Naming;
use crate::state::settling;
use crate::state::space;
use crate::state::space::Element;
use crate::state::tiling_laws;
use crate::state::toplevel::OutputId;
use crate::state::windows;
use vstd::prelude::*;

verus! {

proof fn redrawing_leaves(
    state: State,
    outputs: Seq<OutputId>,
    window: SurfaceId,
    place: Rectangle,
)
    requires
        state.settled_in(window, place),
    ensures
        state.redraw_asked(outputs).settled_in(window, place),
{
}

proof fn refocused_fills_tile(
    state: State,
    window: SurfaceId,
    area: Rectangle,
    tile: WindowGeometry,
)
    requires
        space::one_each(state.elements),
        state.settled_in(window, geometry::placed(area, tile)),
    ensures
        state.refocused().settled_in(window, geometry::placed(area, tile)),
        state.refocused().fills_tile(window, area, tile),
{
    settling::refocusing_leaves(state, window, geometry::placed(area, tile));
}

/// Once a window on the screen is closed, the tiled windows that remain have the tiles of the
/// arrangement for as many as they are, in what is free of the output.
pub proof fn closing_fills_tiles(
    state: State,
    surface: SurfaceId,
    outputs: Seq<OutputId>,
    area: Rectangle,
    tiles: Seq<WindowGeometry>,
    at: int,
)
    requires
        state.orderly(),
        state.all_alive(),
        state.on_screen(surface),
        state.slot(state.current as int) matches Some(slot) ==> slot.surface == surface,
        state.is_free(area),
        state.arranges(area, state.to_tile(Some(surface)).len(), tiles),
        0 <= at < state.to_tile(Some(surface)).len(),
        at < tiles.len(),
    ensures
        state.destroyed(surface, outputs).fills_tile(
            state.to_tile(Some(surface))[at],
            area,
            tiles[at],
        ),
{
    reveal(State::destroyed);
    let forgotten = state.forgotten(surface);
    let cleared = State {
        recheck: forgotten.recheck.remove(surface),
        recenter: forgotten.recenter.remove(surface),
        ..forgotten
    };
    keeping::shown_is_mapped(state, surface);
    assert(!state.unmapped_marks.contains(surface));
    lists::without_leaves(state.floating, surface);
    space::lifted_leaves(state.elements, surface);
    let gone = State {
        elements: space::lifted(cleared.elements, surface),
        ..cleared
    }.without_window(surface);
    assert(gone.owners =~= windows::disowned(state.owners, surface));
    assert(gone.unmapped_marks =~= state.unmapped_marks.remove(surface));
    laws::without_stays_orderly(state, gone, surface);
    lists::removed_keeps(state.mapped, surface);
    lists::removed_keeps(state.unmapped, surface);
    assert(gone.all_alive()) by {
        assert forall|window: SurfaceId|
            #![trigger gone.toplevel(window)]
            lists::listed(gone.mapped, window) || lists::listed(
                gone.unmapped,
                window,
            ) implies gone.toplevel(window).live by {
            without_lists(state.mapped, surface, window);
            without_lists(state.unmapped, surface, window);
            assert(state.toplevel(window).live);
        }
    }
    assert(gone.slot(gone.current as int) is None);
    tiling_laws::leaving_tiles_rest(state, gone, surface);
    tiling_laws::arrangement_stays(state, gone, area, gone.to_tile(None).len(), tiles);
    tiling_laws::layout_settles_tiles(gone, area, tiles, at);
    let laid_out = gone.laid_out().0;
    let window = state.to_tile(Some(surface))[at];
    refocused_fills_tile(laid_out, window, area, tiles[at]);
    redrawing_leaves(laid_out.refocused(), outputs, window, geometry::placed(area, tiles[at]));
}

proof fn without_lists(all: Seq<Seq<SurfaceId>>, window: SurfaceId, other: SurfaceId)
    ensures
        lists::listed(lists::removed(all, window), other) ==> lists::listed(all, other),
{
    let less = lists::removed(all, window);
    if lists::listed(less, other) {
        let i = choose|i: int| 0 <= i < less.len() && #[trigger] less[i].contains(other);
        lists::without_leaves(all[i], window);
        assert(all[i].contains(other));
    }
}

/// Once a window of the current workspace has lost its buffer, the tiled windows that remain have the
/// tiles of the arrangement for as many as they are.
pub proof fn losing_buffer_fills_tiles(
    state: State,
    surface: SurfaceId,
    naming: Naming,
    area: Rectangle,
    tiles: Seq<WindowGeometry>,
    at: int,
)
    requires
        state.orderly(),
        state.all_alive(),
        state.mapped[state.current as int].contains(surface),
        !state.toplevel(surface).has_buffer,
        state.slot(state.current as int) is None,
        state.is_free(area),
        state.arranges(area, state.to_tile(Some(surface)).len(), tiles),
        0 <= at < state.to_tile(Some(surface)).len(),
        at < tiles.len(),
    ensures
        state.root_committed(surface, naming).fills_tile(
            state.to_tile(Some(surface))[at],
            area,
            tiles[at],
        ),
{
    reveal(State::root_committed);
    assert(lists::listed(state.mapped, surface));
    assert(state.workspace_holds(state.current as int, surface));
    lists::index_of_finds(state.mapped, surface);
    lists::index_of_is_only(state.mapped, surface, state.current as int);
    laws::losing_root_stays_orderly(state, surface, naming);
    let lost = state.root_lost(surface, naming);
    lists::removed_keeps(state.mapped, surface);
    assert(lost.mapped == lists::removed(state.mapped, surface));
    assert(lost.all_alive()) by {
        assert forall|window: SurfaceId|
            #![trigger lost.toplevel(window)]
            lists::listed(lost.mapped, window) || lists::listed(
                lost.unmapped,
                window,
            ) implies lost.toplevel(window).live by {
            without_lists(state.mapped, surface, window);
            assert(state.toplevel(window).live) by {
                if lists::listed(lost.unmapped, window) && window != surface {
                    with_lists(state.unmapped, state.current as int, surface, window);
                }
                assert(state.toplevel(surface).live);
            }
        }
    }
    tiling_laws::leaving_tiles_rest(state, lost, surface);
    tiling_laws::arrangement_stays(state, lost, area, lost.to_tile(None).len(), tiles);
    tiling_laws::layout_settles_tiles(lost, area, tiles, at);
    refocused_fills_tile(
        lost.laid_out().0,
        state.to_tile(Some(surface))[at],
        area,
        tiles[at],
    );
}

proof fn with_lists(all: Seq<Seq<SurfaceId>>, index: int, window: SurfaceId, other: SurfaceId)
    requires
        other != window,
    ensures
        lists::listed(lists::added(all, index, window), other) ==> lists::listed(all, other),
        lists::listed(all, other) ==> lists::listed(lists::added(all, index, window), other),
{
    let more = lists::added(all, index, window);
    if lists::listed(more, other) {
        let i = choose|i: int| 0 <= i < more.len() && #[trigger] more[i].contains(other);
        let k = choose|k: int| 0 <= k < more[i].len() && more[i][k] == other;
        assert(all[i][k] == other);
        assert(all[i].contains(other));
    }
    if lists::listed(all, other) {
        let i = choose|i: int| 0 <= i < all.len() && #[trigger] all[i].contains(other);
        let k = choose|k: int| 0 <= k < all[i].len() && all[i][k] == other;
        assert(more[i][k] == other);
        assert(more[i].contains(other));
    }
}

/// Once a window of the current workspace has its first buffer and does not float, it is the last of
/// the tiled windows: the others and then that one have the tiles of the arrangement for as many as
/// they are now.
pub proof fn first_buffer_fills_tiles(
    state: State,
    surface: SurfaceId,
    naming: Naming,
    area: Rectangle,
    tiles: Seq<WindowGeometry>,
    at: int,
)
    requires
        state.orderly(),
        state.all_alive(),
        state.unmapped[state.current as int].contains(surface),
        state.toplevel(surface).has_buffer,
        !state.floats(surface),
        !state.pending_fullscreen.contains(surface),
        !state.pending_maximized.contains(surface),
        state.slot(state.current as int) is None,
        state.is_free(area),
        forall|i: int|
            0 <= i < state.mapped[state.current as int].len() ==> state.on_screen(
                #[trigger] state.mapped[state.current as int][i],
            ),
        state.arranges(area, state.to_tile(None).len() + 1, tiles),
        0 <= at <= state.to_tile(None).len(),
        at < tiles.len(),
    ensures
        at < state.to_tile(None).len() ==> state.root_committed(surface, naming).fills_tile(
            state.to_tile(None)[at],
            area,
            tiles[at],
        ),
        at == state.to_tile(None).len() ==> state.root_committed(surface, naming).fills_tile(
            surface,
            area,
            tiles[at],
        ),
{
    reveal(State::root_committed);
    reveal(State::pending_applied);
    let current = state.current as int;
    assert(lists::listed(state.unmapped, surface));
    assert(!lists::listed(state.mapped, surface));
    lists::index_of_finds(state.unmapped, surface);
    lists::index_of_finds(state.mapped, surface);
    lists::index_of_is_only(state.unmapped, surface, current);
    laws::mapped_is_orderly(state, surface);
    let promoted = state.promoted(surface);
    let mapped = State { unmapped_marks: promoted.unmapped_marks.remove(surface), ..promoted };
    space::place_of_finds(state.elements, surface);
    assert(!space::stack(state.elements).contains(surface));
    let list = state.mapped[current];
    assert(!list.contains(surface)) by {
        if list.contains(surface) {
            assert(state.mapped[current].contains(surface));
        }
    }
    assert(mapped.mapped[current] == list.push(surface));
    assert(list.push(surface)[list.len() as int] == surface);
    assert(mapped.mapped[current].contains(surface));
    assert(mapped.workspace_holds(current, surface));
    keeping::holder_is_only(mapped, surface, current);
    let rect = mapped.initial_rect(surface);
    assert(lists::listed(mapped.mapped, surface));
    keeping::mapping_keeps(mapped, surface, rect, false);
    let shown = mapped.mapped_to(surface, rect, false);
    state::laws::orderly_by_lists(mapped, shown);
    settling::lifting_nothing(state.elements, surface);
    assert(shown.elements == state.elements.push(Element { window: surface, location: rect.loc }));
    assert(space::stack(shown.elements) =~= space::stack(state.elements).push(surface));
    assert(shown.all_alive()) by {
        assert forall|window: SurfaceId|
            #![trigger shown.toplevel(window)]
            lists::listed(shown.mapped, window) || lists::listed(
                shown.unmapped,
                window,
            ) implies shown.toplevel(window).live by {
            without_lists(state.unmapped, surface, window);
            assert(state.toplevel(surface).live);
            if lists::listed(shown.mapped, window) && window != surface {
                with_lists(state.mapped, current, surface, window);
            }
            assert(state.toplevel(window).live);
        }
    }
    let now = shown.mapped[shown.current as int];
    assert forall|i: int| 0 <= i < now.len() implies shown.on_screen(#[trigger] now[i]) by {
        let stack = space::stack(state.elements);
        space::place_of_finds(shown.elements, now[i]);
        if i < list.len() {
            assert(now[i] == state.mapped[current][i]);
            space::place_of_finds(state.elements, now[i]);
            let k = choose|k: int| 0 <= k < stack.len() && stack[k] == now[i];
            assert(stack.push(surface)[k] == now[i]);
        } else {
            assert(stack.push(surface)[stack.len() as int] == now[i]);
        }
    }
    assert(shown.pending_applied(surface) == shown);
    tiling_laws::coming_tiles_more(state, shown, surface);
    tiling_laws::arrangement_stays(state, shown, area, shown.to_tile(None).len(), tiles);
    tiling_laws::layout_settles_tiles(shown, area, tiles, at);
}

/// Whatever a layer surface commits, the tiled windows have their tiles in what is free of the output
/// then.
pub proof fn layer_commit_fills_tiles(
    state: State,
    commit: LayerCommit,
    area: Rectangle,
    tiles: Seq<WindowGeometry>,
    at: int,
)
    requires
        state.orderly(),
        state.all_alive(),
        state.slot(state.current as int) is None,
        state.is_free(area),
        state.arranges(area, state.to_tile(None).len(), tiles),
        0 <= at < state.to_tile(None).len(),
        at < tiles.len(),
    ensures
        state.layer_followed(
            layer_shell::layer_committed(Some(commit), state.keyboard_focus),
        ).fills_tile(state.to_tile(None)[at], area, tiles[at]),
{
    reveal(State::layer_followed);
    tiling_laws::layout_settles_tiles(state, area, tiles, at);
    settling::focusing_leaves(
        state.laid_out().0,
        Some(commit.surface),
        state.to_tile(None)[at],
        geometry::placed(area, tiles[at]),
    );
}

} // verus!
