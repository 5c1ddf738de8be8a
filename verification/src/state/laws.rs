//! Laws of the state: every event leaves it orderly.

use crate::config::runtime::Settings;
use crate::geometry::{Rectangle, WindowGeometry};
use crate::state::keeping;
use crate::state::layout;
use crate::state::lifecycle;
use crate::state::lists;
use crate::state::lists::SurfaceId;
use crate::state::raven;
use crate::state::raven::State;
use crate::state::space;
use crate::state::toplevel::{OutputId, Toplevel};
use crate::state::windows;
use vstd::prelude::*;

verus! {

impl State {
    /// Whether the state is consistent and every unmapped window carries the mark.
    pub open spec fn orderly(self) -> bool {
        &&& self.sound()
        &&& self.consistent()
        &&& forall|window: SurfaceId| #[trigger]
            lists::listed(self.unmapped, window) ==> self.unmapped_marks.contains(window)
    }

    /// Whether the state is orderly and keeps the windows that another one keeps.
    pub open spec fn orderly_like(self, other: State) -> bool {
        self.orderly() && self.keeps_lists(other)
    }
}

/// The state that the compositor starts with is orderly.
pub proof fn start_is_orderly(settings: Settings)
    ensures
        raven::initial_state(settings).orderly(),
        raven::initial_state(settings).all_alive(),
{
    let start = raven::initial_state(settings);
    assert forall|window: SurfaceId|
        !lists::listed(start.mapped, window) && !lists::listed(start.unmapped, window) by {}
    assert(lists::each_once(start.mapped));
    assert(lists::each_once(start.unmapped));
    assert(space::stack(start.elements) =~= seq![]);
}

/// Whatever a client says of a window, the windows stay in order; a window that still carries the
/// mark of an unmapped one does not come back to life.
pub proof fn facts_stay_orderly(state: State, window: SurfaceId, facts: Toplevel)
    requires
        state.orderly(),
        facts.live && state.unmapped_marks.contains(window) ==> state.toplevel(window).live,
    ensures
        state.with_toplevel(window, facts).orderly(),
{
    let told = state.with_toplevel(window, facts);
    assert forall|other: SurfaceId| #[trigger]
        told.unmapped_marks.contains(other) && told.toplevel(other).live implies lists::listed(
        told.unmapped,
        other,
    ) by {
        assert(state.toplevel(other).live);
    }
    assert forall|i: int, other: SurfaceId|
        told.workspace_holds(i, other) == #[trigger] state.workspace_holds(i, other) by {}
}

/// What keeps the lists of a state that keeps the lists of another, keeps those of that one.
pub proof fn keeping_chains(first: State, second: State, third: State)
    requires
        second.keeps_lists(first),
        third.keeps_lists(second),
    ensures
        third.keeps_lists(first),
{
    assert forall|window: SurfaceId|
        #![trigger third.toplevel(window)]
        #![trigger first.toplevel(window)]
        third.toplevel(window).live == first.toplevel(window).live by {
        assert(second.toplevel(window).live == first.toplevel(window).live);
    }
}

/// A consistent state that keeps the lists of an orderly one is orderly.
pub proof fn orderly_by_lists(before: State, after: State)
    requires
        before.orderly(),
        after.consistent(),
        after.keeps_lists(before),
    ensures
        after.orderly(),
        before.all_alive() ==> after.all_alive(),
{
    if before.all_alive() {
        assert forall|window: SurfaceId|
            #![trigger after.toplevel(window)]
            lists::listed(after.mapped, window) || lists::listed(
                after.unmapped,
                window,
            ) implies after.toplevel(window).live by {
            assert(before.toplevel(window).live);
        }
    }
}

/// Telling clients leaves the state orderly.
pub proof fn telling_stays_orderly(before: State, after: State)
    requires
        before.orderly(),
        after.keeps_places(before),
    ensures
        after.orderly(),
{
    keeping::telling_keeps(before, after);
    orderly_by_lists(before, after);
}

/// What is noted as dead is not alive, and all of it is noted.
pub proof fn noted_is_dead(
    toplevels: Map<SurfaceId, Toplevel>,
    dead: Seq<SurfaceId>,
    list: Seq<SurfaceId>,
)
    ensures
        forall|window: SurfaceId| #[trigger]
            lifecycle::noted(toplevels, dead, list).contains(window) <==> dead.contains(window)
                || list.contains(window) && !windows::known(toplevels, window).live,
    decreases list.len(),
{
    if list.len() > 0 {
        let rest = list.drop_last();
        noted_is_dead(toplevels, dead, rest);
        let before = lifecycle::noted(toplevels, dead, rest);
        let after = lifecycle::noted(toplevels, dead, list);
        assert(list =~= rest.push(list.last()));
        assert forall|window: SurfaceId| #[trigger] after.contains(window) <==> dead.contains(window)
            || list.contains(window) && !windows::known(toplevels, window).live by {
            assert(list.contains(window) <==> rest.contains(window) || window == list.last()) by {
                if rest.contains(window) {
                    let i = choose|i: int| 0 <= i < rest.len() && rest[i] == window;
                    assert(list[i] == window);
                }
                if window == list.last() {
                    assert(list[list.len() - 1] == window);
                }
            }
            if after != before {
                assert(after.contains(window) <==> before.contains(window) || window
                    == list.last()) by {
                    if before.contains(window) {
                        let i = choose|i: int| 0 <= i < before.len() && before[i] == window;
                        assert(after[i] == window);
                    }
                    if window == list.last() {
                        assert(after[after.len() - 1] == window);
                    }
                }
            }
        }
    }
}

/// What is noted as dead of several lists.
pub proof fn noted_all_is_dead(
    toplevels: Map<SurfaceId, Toplevel>,
    dead: Seq<SurfaceId>,
    all: Seq<Seq<SurfaceId>>,
)
    ensures
        forall|window: SurfaceId| #[trigger]
            lifecycle::noted_all(toplevels, dead, all).contains(window) <==> dead.contains(window)
                || lists::listed(all, window) && !windows::known(toplevels, window).live,
    decreases all.len(),
{
    if all.len() > 0 {
        let rest = all.drop_last();
        noted_all_is_dead(toplevels, dead, rest);
        let before = lifecycle::noted_all(toplevels, dead, rest);
        noted_is_dead(toplevels, before, all.last());
        assert forall|window: SurfaceId|
            lists::listed(all, window) <==> lists::listed(rest, window) || all.last().contains(
                window,
            ) by {
            if lists::listed(rest, window) {
                let i = choose|i: int| 0 <= i < rest.len() && #[trigger] rest[i].contains(window);
                assert(all[i].contains(window));
            }
            if all.last().contains(window) {
                assert(all[all.len() - 1].contains(window));
            }
            if lists::listed(all, window) {
                let i = choose|i: int| 0 <= i < all.len() && #[trigger] all[i].contains(window);
                if i < rest.len() {
                    assert(rest[i].contains(window));
                }
            }
        }
    }
}

/// The dead windows of a state are those that are kept and not alive.
pub proof fn dead_windows_are(state: State)
    ensures
        forall|window: SurfaceId| #[trigger]
            state.dead_windows().contains(window) <==> !state.toplevel(window).live && (
            lists::listed(state.mapped, window) || lists::listed(state.unmapped, window)
                || space::stack(state.elements).contains(window)),
{
    let mapped = lifecycle::noted_all(state.toplevels, seq![], state.mapped);
    let unmapped = lifecycle::noted_all(state.toplevels, mapped, state.unmapped);
    noted_all_is_dead(state.toplevels, seq![], state.mapped);
    noted_all_is_dead(state.toplevels, mapped, state.unmapped);
    noted_is_dead(state.toplevels, unmapped, space::stack(state.elements));
    assert forall|window: SurfaceId| #[trigger]
        state.dead_windows().contains(window) <==> !state.toplevel(window).live && (lists::listed(
            state.mapped,
            window,
        ) || lists::listed(state.unmapped, window) || space::stack(state.elements).contains(
            window,
        )) by {
        assert(state.toplevel(window) == windows::known(state.toplevels, window));
        assert(!Seq::<SurfaceId>::empty().contains(window));
    }
}

/// A removed window leaves the rest of the lists as it was.
proof fn removed_lists(all: Seq<Seq<SurfaceId>>, window: SurfaceId)
    ensures
        forall|other: SurfaceId| #[trigger]
            lists::listed(lists::removed(all, window), other) <==> lists::listed(all, other)
                && other != window,
{
    lists::removed_keeps(all, window);
    let rest = lists::removed(all, window);
    assert forall|other: SurfaceId| #[trigger]
        lists::listed(rest, other) <==> lists::listed(all, other) && other != window by {
        if lists::listed(rest, other) {
            let i = choose|i: int| 0 <= i < rest.len() && #[trigger] rest[i].contains(other);
            assert(all[i].contains(other));
        }
        if lists::listed(all, other) && other != window {
            let i = choose|i: int| 0 <= i < all.len() && #[trigger] all[i].contains(other);
            assert(rest[i].contains(other));
        }
    }
}

/// Forgetting everything of a window leaves the state orderly, and the other windows in place.
pub proof fn burying_stays_orderly(state: State, window: SurfaceId)
    requires
        state.orderly(),
    ensures
        state.buried(window).orderly(),
        state.buried(window).lives_like(state),
        forall|other: SurfaceId| #[trigger]
            lists::listed(state.buried(window).mapped, other) <==> lists::listed(
                state.mapped,
                other,
            ) && other != window,
        forall|other: SurfaceId| #[trigger]
            lists::listed(state.buried(window).unmapped, other) <==> lists::listed(
                state.unmapped,
                other,
            ) && other != window,
{
    let after = state.buried(window);
    removed_lists(state.mapped, window);
    removed_lists(state.unmapped, window);
    lists::removed_keeps(state.mapped, window);
    lists::removed_keeps(state.unmapped, window);
    space::lifted_leaves(state.elements, window);
    assert(after.elements == space::lifted(state.elements, window));
    assert(after.mapped == lists::removed(state.mapped, window));
    assert(after.unmapped == lists::removed(state.unmapped, window));
    assert(after.unmapped_marks =~= state.unmapped_marks.remove(window));
    assert forall|i: int|
        0 <= i < after.owners.len() && (#[trigger] after.owners[i]) is Some implies after.workspace_holds(
        i,
        after.owners[i].unwrap().surface,
    ) && after.owners[i] == state.owners[i] by {
        assert(state.owners[i] is Some);
        let surface = state.owners[i].unwrap().surface;
        assert(state.workspace_holds(i, surface));
        assert(surface != window);
        if 0 <= i < state.mapped.len() && state.mapped[i].contains(surface) {
            assert(after.mapped[i].contains(surface));
        } else {
            assert(after.unmapped[i].contains(surface));
        }
    }
    assert forall|other: SurfaceId| #[trigger]
        after.unmapped_marks.contains(other) && after.toplevel(other).live implies lists::listed(
        after.unmapped,
        other,
    ) by {
        assert(state.toplevel(other).live);
    }
}

/// Forgetting everything of several windows.
pub proof fn burying_all_stays_orderly(state: State, list: Seq<SurfaceId>)
    requires
        state.orderly(),
    ensures
        state.all_buried(list).orderly(),
        state.all_buried(list).lives_like(state),
        forall|other: SurfaceId| #[trigger]
            lists::listed(state.all_buried(list).mapped, other) <==> lists::listed(
                state.mapped,
                other,
            ) && !list.contains(other),
        forall|other: SurfaceId| #[trigger]
            lists::listed(state.all_buried(list).unmapped, other) <==> lists::listed(
                state.unmapped,
                other,
            ) && !list.contains(other),
    decreases list.len(),
{
    if list.len() > 0 {
        let rest = list.drop_last();
        burying_all_stays_orderly(state, rest);
        let before = state.all_buried(rest);
        burying_stays_orderly(before, list.last());
        let after = state.all_buried(list);
        assert forall|other: SurfaceId| list.contains(other) <==> rest.contains(other) || other
            == list.last() by {
            if rest.contains(other) {
                let i = choose|i: int| 0 <= i < rest.len() && rest[i] == other;
                assert(list[i] == other);
            }
            if list.contains(other) {
                let i = choose|i: int| 0 <= i < list.len() && list[i] == other;
                if i < rest.len() {
                    assert(rest[i] == other);
                }
            }
            if other == list.last() {
                assert(list[list.len() - 1] == other);
            }
        }
        assert forall|window: SurfaceId|
            #![trigger after.toplevel(window)]
            #![trigger state.toplevel(window)]
            after.toplevel(window).live == state.toplevel(window).live by {
            assert(before.toplevel(window).live == state.toplevel(window).live);
        }
    }
}

/// Forgetting the dead leaves the state orderly, with none but live windows.
pub proof fn pruning_stays_orderly(state: State)
    requires
        state.orderly(),
    ensures
        state.pruned().orderly(),
        state.pruned().all_alive(),
        state.pruned().lives_like(state),
        state.pruned().current == state.current,
        state.pruned().settings == state.settings,
        state.pruned().outputs == state.outputs,
        state.all_alive() ==> state.pruned() == state,
        forall|other: SurfaceId| #[trigger]
            lists::listed(state.pruned().mapped, other) ==> lists::listed(state.mapped, other),
{
    dead_windows_are(state);
    burying_all_stays_orderly(state, state.dead_windows());
    lifecycle::burying_keeps_sound(state, state.dead_windows());
    let after = state.pruned();
    assert forall|window: SurfaceId|
        #![trigger after.toplevel(window)]
        lists::listed(after.mapped, window) || lists::listed(
            after.unmapped,
            window,
        ) implies after.toplevel(window).live by {
        assert(state.toplevel(window).live == after.toplevel(window).live);
        assert(!state.dead_windows().contains(window));
    }
    if state.all_alive() {
        let dead = state.dead_windows();
        if dead.len() > 0 {
            assert(dead.contains(dead[0]));
            assert(!state.toplevel(dead[0]).live);
            if space::stack(state.elements).contains(dead[0]) {
                assert(lists::listed(state.mapped, dead[0]));
            }
            assert(false);
        }
    }
}

/// Showing mapped windows.
pub proof fn showing_all_keeps(state: State, list: Seq<SurfaceId>)
    requires
        state.consistent(),
        forall|i: int| 0 <= i < list.len() ==> lists::listed(state.mapped, #[trigger] list[i]),
    ensures
        state.all_shown(list).consistent(),
        state.all_shown(list).keeps_lists(state),
        state.all_shown(list).owners == state.owners,
    decreases list.len(),
{
    if list.len() > 0 {
        let rest = list.drop_last();
        assert forall|i: int| 0 <= i < rest.len() implies lists::listed(
            state.mapped,
            #[trigger] rest[i],
        ) by {
            assert(rest[i] == list[i]);
        }
        showing_all_keeps(state, rest);
        let before = state.all_shown(rest);
        assert(lists::listed(state.mapped, list[list.len() - 1]));
        keeping::mapping_keeps(before, list.last(), before.initial_rect(list.last()), false);
        keeping_chains(state, before, state.all_shown(list));
    }
}

/// The windows with a buffer are among the windows.
pub proof fn buffered_is_part(state: State, list: Seq<SurfaceId>)
    ensures
        forall|i: int|
            0 <= i < state.buffered(list).len() ==> list.contains(
                #[trigger] state.buffered(list)[i],
            ),
    decreases list.len(),
{
    if list.len() > 0 {
        let rest = list.drop_last();
        buffered_is_part(state, rest);
        let before = state.buffered(rest);
        let after = state.buffered(list);
        assert forall|i: int| 0 <= i < after.len() implies list.contains(#[trigger] after[i]) by {
            if i < before.len() {
                assert(rest.contains(before[i]));
                let k = choose|k: int| 0 <= k < rest.len() && rest[k] == before[i];
                assert(list[k] == after[i]);
            } else {
                assert(list[list.len() - 1] == after[i]);
            }
        }
    }
}

/// The floating windows, or the others, are among the windows.
pub proof fn sorted_out_is_part(state: State, list: Seq<SurfaceId>, floating: bool)
    ensures
        forall|i: int|
            0 <= i < state.sorted_out(list, floating).len() ==> list.contains(
                #[trigger] state.sorted_out(list, floating)[i],
            ),
    decreases list.len(),
{
    if list.len() > 0 {
        let rest = list.drop_last();
        sorted_out_is_part(state, rest, floating);
        let before = state.sorted_out(rest, floating);
        let after = state.sorted_out(list, floating);
        assert forall|i: int| 0 <= i < after.len() implies list.contains(#[trigger] after[i]) by {
            if i < before.len() {
                assert(rest.contains(before[i]));
                let k = choose|k: int| 0 <= k < rest.len() && rest[k] == before[i];
                assert(list[k] == after[i]);
            } else {
                assert(list[list.len() - 1] == after[i]);
            }
        }
    }
}

/// Giving floating windows their rectangles.
pub proof fn laying_out_floating_keeps(state: State, list: Seq<SurfaceId>)
    requires
        state.consistent(),
        forall|i: int| 0 <= i < list.len() ==> lists::listed(state.mapped, #[trigger] list[i]),
    ensures
        state.floating_laid_out(list).consistent(),
        state.floating_laid_out(list).keeps_lists(state),
        state.floating_laid_out(list).owners == state.owners,
    decreases list.len(),
{
    if list.len() > 0 {
        let rest = list.drop_last();
        assert forall|i: int| 0 <= i < rest.len() implies lists::listed(
            state.mapped,
            #[trigger] rest[i],
        ) by {
            assert(rest[i] == list[i]);
        }
        laying_out_floating_keeps(state, rest);
        let before = state.floating_laid_out(rest);
        let window = list.last();
        assert(lists::listed(state.mapped, list[list.len() - 1]));
        let rect = match before.shown_at(window) {
            Some(rect) => rect,
            None => before.initial_rect(window),
        };
        let given = before.with_assigned(window, rect);
        assert(given.keeps_places(before));
        keeping::telling_keeps(before, given);
        keeping::mapping_keeps(given, window, rect, false);
        keeping_chains(before, given, given.mapped_to(window, rect, false));
        keeping_chains(state, before, state.floating_laid_out(list));
    }
}

/// Putting a mapped window into its tile.
pub proof fn laying_out_tile_keeps(
    state: State,
    window: SurfaceId,
    area: Rectangle,
    tile: WindowGeometry,
)
    requires
        state.consistent(),
        lists::listed(state.mapped, window),
    ensures
        state.tile_laid_out(window, area, tile).consistent(),
        state.tile_laid_out(window, area, tile).keeps_lists(state),
        state.tile_laid_out(window, area, tile).owners == state.owners,
{
    let target = crate::geometry::placed(area, tile);
    let given = state.with_assigned(window, target);
    assert(given.keeps_places(state));
    keeping::telling_keeps(state, given);
    keeping::asking_keeps_places(
        given,
        window,
        given.tiled_pending(window, target.size, area.size),
        Some(target.size),
    );
    let asked = given.tiled_asked(window, target.size, area.size);
    keeping::telling_keeps(given, asked);
    keeping_chains(state, given, asked);
    keeping::mapping_keeps(given, window, target, false);
    keeping::mapping_keeps(asked, window, target, false);
    keeping_chains(state, given, given.mapped_to(window, target, false));
    keeping_chains(state, asked, asked.mapped_to(window, target, false));
}

/// Putting mapped windows into their tiles.
pub proof fn laying_out_tiles_keeps(
    state: State,
    windows: Seq<SurfaceId>,
    area: Rectangle,
    tiles: Seq<WindowGeometry>,
    count: nat,
)
    requires
        state.consistent(),
        count <= windows.len(),
        forall|i: int| 0 <= i < windows.len() ==> lists::listed(state.mapped, #[trigger] windows[i]),
    ensures
        state.tiles_laid_out(windows, area, tiles, count).consistent(),
        state.tiles_laid_out(windows, area, tiles, count).keeps_lists(state),
        state.tiles_laid_out(windows, area, tiles, count).owners == state.owners,
    decreases count,
{
    if count > 0 {
        let fewer = (count - 1) as nat;
        laying_out_tiles_keeps(state, windows, area, tiles, fewer);
        let before = state.tiles_laid_out(windows, area, tiles, fewer);
        assert(lists::listed(state.mapped, windows[count - 1]));
        laying_out_tile_keeps(before, windows[count - 1], area, tiles[count - 1]);
        keeping_chains(state, before, state.tiles_laid_out(windows, area, tiles, count));
    }
}

/// Laying mapped windows out.
pub proof fn laying_out_windows_keeps(state: State, windows: Seq<SurfaceId>, area: Rectangle)
    requires
        state.consistent(),
        forall|i: int| 0 <= i < windows.len() ==> lists::listed(state.mapped, #[trigger] windows[i]),
    ensures
        state.windows_laid_out(windows, area).consistent(),
        state.windows_laid_out(windows, area).keeps_lists(state),
{
    let floating = state.sorted_out(windows, true);
    sorted_out_is_part(state, windows, true);
    assert forall|i: int| 0 <= i < floating.len() implies lists::listed(
        state.mapped,
        #[trigger] floating[i],
    ) by {
        let k = choose|k: int| 0 <= k < windows.len() && windows[k] == floating[i];
        assert(lists::listed(state.mapped, windows[k]));
    }
    laying_out_floating_keeps(state, floating);
    let placed = state.floating_laid_out(floating);
    let tiled = placed.sorted_out(windows, false);
    sorted_out_is_part(placed, windows, false);
    assert forall|i: int| 0 <= i < tiled.len() implies lists::listed(
        placed.mapped,
        #[trigger] tiled[i],
    ) by {
        let k = choose|k: int| 0 <= k < windows.len() && windows[k] == tiled[i];
        assert(lists::listed(state.mapped, windows[k]));
    }
    keeping::restacking_keeps(placed);
    keeping_chains(state, placed, placed.restacked());
    let tiles = space::tiles_for(placed.layouts, area.size, tiled.len());
    let count = if tiled.len() < tiles.len() {
        tiled.len()
    } else {
        tiles.len()
    };
    laying_out_tiles_keeps(placed, tiled, area, tiles, count);
    let settled = placed.tiles_laid_out(tiled, area, tiles, count);
    keeping::restacking_keeps(settled);
    keeping_chains(state, placed, settled);
    keeping_chains(state, settled, settled.restacked());
}

/// Laying the fullscreen window of the current workspace out.
pub proof fn laying_out_fullscreen_keeps(state: State, output: OutputId)
    requires
        state.orderly(),
    ensures
        state.fullscreen_laid_out(output).0.consistent(),
        state.fullscreen_laid_out(output).0.keeps_lists(state),
{
    keeping::clearing_owner_keeps(state, state.current as int, true);
    if let Some(window) = state.owner_window(state.current as int) {
        if !state.unmapped_marks.contains(window) {
            keeping::window_has_workspace(state, window);
            assert(lists::listed(state.mapped, window)) by {
                if !(state.mapped[state.current as int].contains(window)) {
                    assert(state.unmapped[state.current as int].contains(window));
                    assert(lists::listed(state.unmapped, window));
                }
            }
            if let Some(target) = state.exclusive_rect(window) {
                let given = state.with_assigned(window, target);
                assert(given.keeps_places(state));
                keeping::telling_keeps(state, given);
                keeping::asking_keeps_places(
                    given,
                    window,
                    given.protocol_pending(window, true, Some(target)),
                    given.told_fallback(window, Some(target)),
                );
                let asked = given.fullscreen_asked(window, true, Some(target));
                keeping::telling_keeps(given, asked);
                keeping_chains(state, given, asked);
                keeping::mapping_keeps(given, window, target, false);
                keeping::mapping_keeps(asked, window, target, false);
                keeping_chains(state, given, given.mapped_to(window, target, false));
                keeping_chains(state, asked, asked.mapped_to(window, target, false));
                keeping::raising_keeps(given, window);
                keeping::raising_keeps(asked, window);
                keeping::raising_keeps(given.mapped_to(window, target, false), window);
                keeping::raising_keeps(asked.mapped_to(window, target, false), window);
                keeping_chains(state, given, given.raised(window));
                keeping_chains(state, asked, asked.raised(window));
                keeping_chains(
                    state,
                    given.mapped_to(window, target, false),
                    given.mapped_to(window, target, false).raised(window),
                );
                keeping_chains(
                    state,
                    asked.mapped_to(window, target, false),
                    asked.mapped_to(window, target, false).raised(window),
                );
            }
        }
    }
}

/// A layout leaves the state orderly: it keeps the windows that are alive where they are kept.
pub proof fn layout_stays_orderly(state: State)
    requires
        state.orderly(),
    ensures
        state.laid_out().0.orderly(),
        state.laid_out().0.keeps_lists(state.pruned()),
        state.laid_out().0.all_alive(),
        state.laid_out().0.settings == state.settings,
        state.laid_out().0.current == state.current,
        state.all_alive() ==> state.laid_out().0.keeps_lists(state),
{
    reveal(State::laid_out);
    pruning_stays_orderly(state);
    let pruned = state.pruned();
    let list = pruned.mapped[pruned.current as int];
    assert forall|i: int| 0 <= i < list.len() implies lists::listed(
        pruned.mapped,
        #[trigger] list[i],
    ) by {
        assert(list.contains(list[i]));
        assert(pruned.mapped[pruned.current as int].contains(list[i]));
    }
    showing_all_keeps(pruned, list);
    let shown = pruned.all_shown(list);
    orderly_by_lists(pruned, shown);
    layout::singles_stay(shown);
    let windows = shown.buffered(space::stack(shown.elements));
    buffered_is_part(shown, space::stack(shown.elements));
    assert forall|i: int| 0 <= i < windows.len() implies lists::listed(
        shown.mapped,
        #[trigger] windows[i],
    ) by {
        assert(space::stack(shown.elements).contains(windows[i]));
    }
    if shown.outputs.len() > 0 {
        if let Some(whole) = shown.outputs[0].geometry {
            laying_out_fullscreen_keeps(shown, shown.outputs[0].id);
            let owned = shown.fullscreen_laid_out(shown.outputs[0].id).0;
            let area = crate::geometry::usable(shown.outputs[0].work_area, whole);
            laying_out_windows_keeps(owned, windows, area);
            keeping_chains(pruned, shown, owned);
            keeping_chains(pruned, owned, owned.windows_laid_out(windows, area));
        }
    }
    orderly_by_lists(pruned, state.laid_out().0);
}

} // verus!
