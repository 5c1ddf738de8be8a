//! Laws of workspaces: moving a window, or going to another workspace, leaves the state orderly.

use crate::state::fullscreen;
use crate::state::fullscreen_laws;
use crate::state::keeping;
use crate::state::laws;
use crate::state::lists;
use crate::state::lists::SurfaceId;
use crate::state::raven::{State, WORKSPACE_COUNT};
use crate::state::space;
use crate::state::staying;
use crate::state::toplevel::FullscreenSlot;
use vstd::prelude::*;

verus! {

impl State {
    /// Whether the state is consistent but for where `window` is fullscreen.
    pub open spec fn consistent_but(self, window: SurfaceId) -> bool {
        &&& lists::each_once(self.mapped)
        &&& lists::each_once(self.unmapped)
        &&& self.stores_apart()
        &&& space::one_each(self.elements)
        &&& self.screen_mapped()
        &&& self.marks_unmapped()
        &&& forall|i: int|
            0 <= i < self.owners.len() && (#[trigger] self.owners[i]) is Some
                && self.owners[i].unwrap().surface != window ==> self.workspace_holds(
                i,
                self.owners[i].unwrap().surface,
            )
        &&& self.owners_apart()
    }
}

/// The workspace whose fullscreen a surface has is the first.
pub proof fn owner_of_finds(
    owners: Seq<Option<FullscreenSlot>>,
    surface: SurfaceId,
    from: int,
)
    requires
        0 <= from <= owners.len() <= usize::MAX,
    ensures
        match fullscreen::owner_from(owners, surface, from) {
            Some(index) => from <= index < owners.len() && owners[index as int] is Some
                && owners[index as int].unwrap().surface == surface,
            None => forall|i: int|
                from <= i < owners.len() && (#[trigger] owners[i]) is Some
                    ==> owners[i].unwrap().surface != surface,
        },
    decreases owners.len() - from,
{
    if from < owners.len() {
        owner_of_finds(owners, surface, from + 1);
    }
}

/// Moving a window's fullscreen to the workspace that the window is on.
pub proof fn moving_owner_keeps(state: State, window: SurfaceId, target: int)
    requires
        state.sound(),
        state.consistent_but(window),
        0 <= target < WORKSPACE_COUNT,
        state.workspace_holds(target, window),
    ensures
        state.owner_moved(window, target).consistent(),
        state.owner_moved(window, target).keeps_lists(state),
        state.owner_moved(window, target).elements == state.elements,
{
    reveal(State::owner_moved);
    owner_of_finds(state.owners, window, 0);
    let after = state.owner_moved(window, target);
    match fullscreen::owner_of(state.owners, window) {
        None => {
            assert(state.owners_at_home());
        },
        Some(found) => {
            let source = found as int;
            if source != target {
                let other_there = match state.slot(target) {
                    Some(slot) => slot.surface != window,
                    None => false,
                };
                assert(state.slot(target) is Some ==> other_there) by {
                    if state.slot(target) is Some && !other_there {
                        assert(state.owners[source] is Some && state.owners[target] is Some);
                    }
                }
                let free = if other_there {
                    state.owner_cleared(target, true)
                } else {
                    state
                };
                if other_there {
                    let slot = state.slot(target).unwrap();
                    let cleared = State { owners: state.owners.update(target, None), ..state };
                    fullscreen_laws::asking_fullscreen_keeps_places(
                        cleared,
                        slot.surface,
                        false,
                        None,
                    );
                    assert(free.keeps_lists(state));
                    assert(free.owners == cleared.owners);
                    assert(free.elements == state.elements);
                }
                assert forall|i: int| 0 <= i < state.owners.len() implies free.owners[i] == (if i
                    == target {
                    None
                } else {
                    state.owners[i]
                }) by {}
                assert forall|i: int| 0 <= i < state.owners.len() implies (
                #[trigger] after.owners[i]) == (if i == target {
                    state.owners[source]
                } else if i == source {
                    None
                } else {
                    state.owners[i]
                }) by {}
                assert(after.keeps_lists(free));
                laws::keeping_chains(state, free, after);
                assert(after.owners_apart()) by {
                    assert forall|i: int, j: int|
                        0 <= i < j < after.owners.len() && (#[trigger] after.owners[i]) is Some && (
                        #[trigger] after.owners[j]) is Some implies after.owners[i].unwrap().surface
                        != after.owners[j].unwrap().surface by {
                        let from_i = if i == target {
                            source
                        } else {
                            i
                        };
                        let from_j = if j == target {
                            source
                        } else {
                            j
                        };
                        assert(state.owners[from_i] is Some && state.owners[from_j] is Some);
                        if from_i < from_j {
                            assert(state.owners[from_i].unwrap().surface
                                != state.owners[from_j].unwrap().surface);
                        } else {
                            assert(state.owners[from_j].unwrap().surface
                                != state.owners[from_i].unwrap().surface);
                        }
                    }
                }
                assert(after.owners_at_home()) by {
                    assert forall|i: int|
                        0 <= i < after.owners.len() && (
                        #[trigger] after.owners[i]) is Some implies after.workspace_holds(
                        i,
                        after.owners[i].unwrap().surface,
                    ) by {
                        if i == target {
                            assert(state.workspace_holds(target, window));
                        } else {
                            assert(state.owners[i] is Some);
                            if state.owners[i].unwrap().surface == window {
                                if i < source {
                                    assert(state.owners[i].unwrap().surface
                                        != state.owners[source].unwrap().surface);
                                } else {
                                    assert(state.owners[source].unwrap().surface
                                        != state.owners[i].unwrap().surface);
                                }
                            }
                            assert(state.workspace_holds(i, state.owners[i].unwrap().surface));
                        }
                    }
                }
                assert(after.marks_unmapped()) by {
                    assert forall|other: SurfaceId| #[trigger]
                        after.unmapped_marks.contains(other) && after.toplevel(
                            other,
                        ).live implies lists::listed(after.unmapped, other) by {
                        assert(state.toplevel(other).live);
                    }
                }
            } else {
                assert(state.owners_at_home()) by {
                    assert forall|i: int|
                        0 <= i < state.owners.len() && (
                        #[trigger] state.owners[i]) is Some implies state.workspace_holds(
                        i,
                        state.owners[i].unwrap().surface,
                    ) by {
                        if state.owners[i].unwrap().surface == window && i != source {
                            if i < source {
                                assert(state.owners[i].unwrap().surface
                                    != state.owners[source].unwrap().surface);
                            } else {
                                assert(state.owners[source].unwrap().surface
                                    != state.owners[i].unwrap().surface);
                            }
                        }
                    }
                }
            }
        },
    }
}

/// Lists that do not hold a window are the same without it.
pub proof fn removing_nothing(all: Seq<Seq<SurfaceId>>, window: SurfaceId)
    requires
        !lists::listed(all, window),
    ensures
        lists::removed(all, window) == all,
{
    assert forall|i: int| 0 <= i < all.len() implies lists::removed(all, window)[i] == all[i] by {
        lists::without_leaves(all[i], window);
        assert(!all[i].contains(window));
    }
    assert(lists::removed(all, window) =~= all);
}

/// A window that is taken from its list and put onto another is on that one.
proof fn relisted(all: Seq<Seq<SurfaceId>>, window: SurfaceId, target: int)
    requires
        lists::each_once(all),
        0 <= target < all.len(),
    ensures
        ({
            let after = lists::added(lists::removed(all, window), target, window);
            &&& after.len() == all.len()
            &&& lists::each_once(after)
            &&& after[target].contains(window)
            &&& forall|other: SurfaceId| #[trigger]
                lists::listed(after, other) <==> lists::listed(all, other) || other == window
            &&& forall|i: int, other: SurfaceId|
                0 <= i < all.len() && other != window ==> (#[trigger] after[i].contains(other)
                    <==> all[i].contains(other))
        }),
{
    let rest = lists::removed(all, window);
    let after = lists::added(rest, target, window);
    lists::removed_keeps(all, window);
    lists::added_keeps(rest, target, window);
    assert forall|i: int, other: SurfaceId| 0 <= i < all.len() && other != window implies (
    #[trigger] after[i].contains(other) <==> all[i].contains(other)) by {
        assert(rest[i].contains(other) <==> all[i].contains(other));
    }
    assert forall|other: SurfaceId| #[trigger]
        lists::listed(after, other) <==> lists::listed(all, other) || other == window by {
        if lists::listed(after, other) && other != window {
            let i = choose|i: int| 0 <= i < after.len() && #[trigger] after[i].contains(other);
            assert(all[i].contains(other));
        }
        if other == window {
            assert(after[target].contains(window));
        }
        if lists::listed(all, other) && other != window {
            let i = choose|i: int| 0 <= i < all.len() && #[trigger] all[i].contains(other);
            assert(after[i].contains(other));
        }
    }
}

/// Moving an unmapped window to another workspace.
pub proof fn moving_unmapped_stays_orderly(state: State, window: SurfaceId, target: int)
    requires
        state.orderly(),
        0 <= target < WORKSPACE_COUNT,
        state.unmapped_marks.contains(window),
    ensures
        state.unmapped_moved(window, target).orderly(),
        state.unmapped_moved(window, target).mapped == state.mapped,
        state.unmapped_moved(window, target).workspace_of(window) == Some(target as usize),
        state.unmapped_moved(window, target).lives_like(state),
        state.unmapped_moved(window, target).current == state.current,
        state.unmapped_moved(window, target).outputs == state.outputs,
        state.all_alive() && state.toplevel(window).live ==> state.unmapped_moved(
            window,
            target,
        ).all_alive(),
{
    removing_nothing(state.mapped, window);
    lists::index_of_finds(state.unmapped, window);
    lists::index_of_finds(state.mapped, window);
    relisted(state.unmapped, window, target);
    let stays = lists::index_of(state.unmapped, window) == Some(target as usize);
    let unmapped = if stays {
        state.unmapped
    } else {
        lists::added(lists::removed(state.unmapped, window), target, window)
    };
    let listed = State { unmapped, mapped: lists::removed(state.mapped, window), ..state };
    assert(listed.mapped == state.mapped);
    assert forall|i: int|
        0 <= i < listed.owners.len() && (#[trigger] listed.owners[i]) is Some
            && listed.owners[i].unwrap().surface != window implies listed.workspace_holds(
        i,
        listed.owners[i].unwrap().surface,
    ) by {
        let surface = state.owners[i].unwrap().surface;
        assert(state.workspace_holds(i, surface));
        if !(0 <= i < state.mapped.len() && state.mapped[i].contains(surface)) {
            assert(listed.unmapped[i].contains(surface));
        }
    }
    assert(listed.marks_unmapped()) by {
        assert forall|other: SurfaceId| #[trigger]
            listed.unmapped_marks.contains(other) && listed.toplevel(
                other,
            ).live implies lists::listed(listed.unmapped, other) by {
            assert(state.toplevel(other).live);
        }
    }
    assert(lists::listed(listed.unmapped, window)) by {
        assert(listed.unmapped[target].contains(window));
    }
    assert(listed.consistent_but(window));
    assert(listed.workspace_holds(target, window));
    moving_owner_keeps(listed, window, target);
    let after = state.unmapped_moved(window, target);
    assert(after == listed.owner_moved(window, target));
    lists::index_of_finds(after.mapped, window);
    lists::index_of_is_only(after.unmapped, window, target);
    assert(!lists::listed(after.mapped, window));
    assert forall|other: SurfaceId|
        #![trigger after.toplevel(other)]
        #![trigger state.toplevel(other)]
        after.toplevel(other).live == state.toplevel(other).live by {
        assert(listed.toplevel(other).live == state.toplevel(other).live);
    }
}

/// Moving a mapped window, or one on no workspace yet, to another workspace.
pub proof fn moving_mapped_stays_orderly(state: State, window: SurfaceId, target: int)
    requires
        state.orderly(),
        0 <= target < WORKSPACE_COUNT,
        !state.unmapped_marks.contains(window),
    ensures
        state.mapped_moved(window, target).orderly(),
        state.mapped_moved(window, target).unmapped == state.unmapped,
        state.mapped_moved(window, target).workspace_of(window) == Some(target as usize),
        state.mapped_moved(window, target).lives_like(state),
        state.mapped_moved(window, target).current == state.current,
        state.mapped_moved(window, target).outputs == state.outputs,
        state.all_alive() && state.toplevel(window).live ==> state.mapped_moved(
            window,
            target,
        ).all_alive(),
{
    removing_nothing(state.unmapped, window);
    lists::index_of_finds(state.mapped, window);
    relisted(state.mapped, window, target);
    let source = lists::index_of(state.mapped, window);
    if source is None {
        removing_nothing(state.mapped, window);
    }
    let stays = source == Some(target as usize);
    let moved = if stays {
        state
    } else {
        State { mapped: lists::added(lists::removed(state.mapped, window), target, window), ..state }
    };
    assert(lists::listed(moved.mapped, window)) by {
        assert(moved.mapped[target].contains(window));
    }
    assert forall|i: int|
        0 <= i < moved.owners.len() && (#[trigger] moved.owners[i]) is Some
            && moved.owners[i].unwrap().surface != window implies moved.workspace_holds(
        i,
        moved.owners[i].unwrap().surface,
    ) by {
        let surface = state.owners[i].unwrap().surface;
        assert(state.workspace_holds(i, surface));
        if 0 <= i < state.mapped.len() && state.mapped[i].contains(surface) {
            assert(moved.mapped[i].contains(surface));
        }
    }
    assert(moved.marks_unmapped()) by {
        assert forall|other: SurfaceId| #[trigger]
            moved.unmapped_marks.contains(other) && moved.toplevel(
                other,
            ).live implies lists::listed(moved.unmapped, other) by {
            assert(state.toplevel(other).live);
        }
    }
    assert(moved.consistent_but(window));
    let rect = moved.initial_rect(window);
    let shown = moved.mapped_to(window, rect, false);
    space::topped_keeps(moved.elements, window, rect.loc);
    space::lifted_leaves(moved.elements, window);
    let placed = if stays {
        moved
    } else if source == Some(state.current) {
        moved.unmapped_window(window)
    } else if target == state.current {
        moved.shown_if_mappable(window)
    } else {
        moved
    };
    assert(placed.consistent_but(window)) by {
        assert(placed.mapped == moved.mapped);
        assert(placed.toplevels == moved.toplevels);
        assert forall|other: SurfaceId| #[trigger]
            placed.unmapped_marks.contains(other) && placed.toplevel(
                other,
            ).live implies lists::listed(placed.unmapped, other) by {
            assert(moved.toplevel(other).live);
        }
        assert forall|i: int|
            0 <= i < placed.owners.len() && (#[trigger] placed.owners[i]) is Some
                && placed.owners[i].unwrap().surface != window implies placed.workspace_holds(
            i,
            placed.owners[i].unwrap().surface,
        ) by {
            assert(moved.workspace_holds(i, moved.owners[i].unwrap().surface));
        }
    }
    let listed = State { unmapped: lists::removed(placed.unmapped, window), ..placed };
    assert(listed == placed);
    assert(listed.workspace_holds(target, window));
    moving_owner_keeps(listed, window, target);
    let after = state.mapped_moved(window, target);
    assert(after == listed.owner_moved(window, target));
    lists::index_of_is_only(after.mapped, window, target);
    assert forall|other: SurfaceId|
        #![trigger after.toplevel(other)]
        #![trigger state.toplevel(other)]
        after.toplevel(other).live == state.toplevel(other).live by {
        assert(listed.toplevel(other).live == state.toplevel(other).live);
    }
}

/// A window that is moved is on the workspace it is moved to, and the state stays orderly.
pub proof fn moving_stays_orderly(state: State, window: SurfaceId, target: int)
    requires
        state.orderly(),
        target >= 0,
    ensures
        state.moved_to_workspace(window, target).0.orderly(),
        state.moved_to_workspace(window, target).0.current == state.current,
        state.moved_to_workspace(window, target).0.lives_like(state),
        target < WORKSPACE_COUNT ==> state.moved_to_workspace(window, target).0.workspace_of(window)
            == Some(target as usize),
        target >= WORKSPACE_COUNT ==> state.moved_to_workspace(window, target) == (
            state,
            Err::<(), crate::errors::Failure>(lists::no_such_workspace(target)),
        ),
        state.all_alive() && state.toplevel(window).live ==> state.moved_to_workspace(
            window,
            target,
        ).0.all_alive(),
{
    reveal(State::moved_to_workspace);
    lists::index_of_finds(state.unmapped, window);
    if target < WORKSPACE_COUNT {
        if state.unmapped_marks.contains(window) {
            moving_unmapped_stays_orderly(state, window, target);
        } else {
            moving_mapped_stays_orderly(state, window, target);
        }
    }
}

/// Taking windows off the screen.
pub proof fn unmapping_all_stays_orderly(state: State, list: Seq<SurfaceId>)
    requires
        state.orderly(),
    ensures
        state.all_unmapped(list).orderly_like(state),
    decreases list.len(),
{
    if list.len() > 0 {
        unmapping_all_stays_orderly(state, list.drop_last());
        let before = state.all_unmapped(list.drop_last());
        keeping::unmapping_keeps(before, list.last());
        laws::keeping_chains(state, before, state.all_unmapped(list));
        laws::orderly_by_lists(state, state.all_unmapped(list));
    }
}

/// Showing a window of the new current workspace.
pub proof fn arriving_stays_orderly(state: State, window: SurfaceId)
    requires
        state.orderly(),
        state.all_alive(),
        lists::listed(state.mapped, window),
    ensures
        state.arrived(window).orderly_like(state),
        state.arrived(window).all_alive(),
{
    if !state.unmapped_marks.contains(window) {
        let rect = state.initial_rect(window);
        keeping::mapping_keeps(state, window, rect, false);
        let shown = state.mapped_to(window, rect, false);
        laws::orderly_by_lists(state, shown);
        keeping::asking_keeps_places(shown, window, shown.toplevel(window).pending, None);
        let told = if shown.toplevel(window).configured {
            shown.configured_if_changed(window)
        } else {
            shown
        };
        laws::telling_stays_orderly(shown, told);
        laws::keeping_chains(state, shown, told);
        laws::orderly_by_lists(state, told);
        fullscreen_laws::pending_stays_orderly(told, window);
        laws::keeping_chains(state, told, state.arrived(window));
        laws::orderly_by_lists(state, state.arrived(window));
    }
}

/// Showing the windows of the new current workspace.
pub proof fn arriving_all_stays_orderly(state: State, list: Seq<SurfaceId>)
    requires
        state.orderly(),
        state.all_alive(),
        forall|i: int| 0 <= i < list.len() ==> lists::listed(state.mapped, #[trigger] list[i]),
    ensures
        state.all_arrived(list).orderly_like(state),
        state.all_arrived(list).all_alive(),
    decreases list.len(),
{
    if list.len() > 0 {
        let rest = list.drop_last();
        assert forall|i: int| 0 <= i < rest.len() implies lists::listed(
            state.mapped,
            #[trigger] rest[i],
        ) by {
            assert(rest[i] == list[i]);
        }
        arriving_all_stays_orderly(state, rest);
        assert(lists::listed(state.mapped, list[list.len() - 1]));
        arriving_stays_orderly(state.all_arrived(rest), list.last());
        laws::keeping_chains(state, state.all_arrived(rest), state.all_arrived(list));
    }
}

/// Going to another workspace leaves the state orderly, makes that workspace current, and leaves
/// every live window on its own list.
pub proof fn switching_stays_orderly(state: State, target: int)
    requires
        state.orderly(),
        target >= 0,
    ensures
        state.workspace_switched(target).0.orderly(),
        target < WORKSPACE_COUNT ==> state.workspace_switched(target).0.current == target,
        forall|i: int, window: SurfaceId|
            0 <= i < WORKSPACE_COUNT && state.toplevel(window).live ==> (
            #[trigger] state.workspace_switched(target).0.mapped[i].contains(window)
                <==> state.mapped[i].contains(window)),
        forall|i: int, window: SurfaceId|
            0 <= i < WORKSPACE_COUNT && state.toplevel(window).live ==> (
            #[trigger] state.workspace_switched(target).0.unmapped[i].contains(window)
                <==> state.unmapped[i].contains(window)),
{
    reveal(State::workspace_switched);
    if target < WORKSPACE_COUNT && target != state.current {
        laws::pruning_stays_orderly(state);
        laws::dead_windows_are(state);
        laws::burying_all_stays_orderly(state, state.dead_windows());
        let pruned = state.pruned();
        let list = pruned.mapped[pruned.current as int];
        unmapping_all_stays_orderly(pruned, list);
        let left = pruned.all_unmapped(list);
        laws::orderly_by_lists(pruned, left);
        let entered = State { current: target as usize, ..left };
        assert(entered.orderly());
        assert(entered.all_alive()) by {
            assert forall|window: SurfaceId|
                #![trigger entered.toplevel(window)]
                lists::listed(entered.mapped, window) || lists::listed(
                    entered.unmapped,
                    window,
                ) implies entered.toplevel(window).live by {
                assert(left.toplevel(window).live);
            }
        }
        let there = entered.mapped[target];
        assert forall|i: int| 0 <= i < there.len() implies lists::listed(
            entered.mapped,
            #[trigger] there[i],
        ) by {
            assert(there.contains(there[i]));
            assert(entered.mapped[target].contains(there[i]));
        }
        arriving_all_stays_orderly(entered, there);
        let arrived = entered.all_arrived(there);
        laws::layout_stays_orderly(arrived);
        let laid_out = arrived.laid_out().0;
        fullscreen_laws::refocusing_stays_orderly(laid_out);
        let refocused = laid_out.refocused();
        let after = State { redraw_all: true, ..refocused };
        assert(after.keeps_places(refocused));
        laws::telling_stays_orderly(refocused, after);
        staying::pruning_keeps_live(state);
        staying::lists_keep_live(pruned, left);
        staying::live_chains(state, pruned, left);
        assert(entered.keeps_live(left));
        staying::live_chains(state, left, entered);
        staying::lists_keep_live(entered, arrived);
        staying::live_chains(state, entered, arrived);
        staying::layout_keeps_live(arrived);
        staying::live_chains(state, arrived, laid_out);
        staying::lists_keep_live(laid_out, refocused);
        staying::live_chains(state, laid_out, refocused);
        assert(after.keeps_live(refocused));
        staying::live_chains(state, refocused, after);
    }
}

/// Moving the focused window to another workspace leaves the state orderly.
pub proof fn moving_focused_stays_orderly(state: State, target: int)
    requires
        state.orderly(),
        target >= 0,
    ensures
        state.focused_moved(target).0.orderly(),
{
    reveal(State::focused_moved);
    if target < WORKSPACE_COUNT {
        if let Some(window) = state.keyboard_focus {
            moving_stays_orderly(state, window, target);
            let moved = state.moved_to_workspace(window, target).0;
            laws::layout_stays_orderly(moved);
            fullscreen_laws::refocusing_stays_orderly(moved.laid_out().0);
            if !moved.unmapped_marks.contains(window) {
                lists::index_of_finds(moved.mapped, window);
                lists::index_of_finds(moved.unmapped, window);
                assert(lists::listed(moved.mapped, window));
                let rect = moved.initial_rect(window);
                keeping::mapping_keeps(moved, window, rect, false);
                laws::orderly_by_lists(moved, moved.mapped_to(window, rect, false));
                laws::layout_stays_orderly(moved.mapped_to(window, rect, false));
            }
        }
    }
}

} // verus!
