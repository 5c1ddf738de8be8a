//! What the steps of the state keep: none of them breaks what holds between two events.

use crate::geometry::{Point, Rectangle, Size};
use crate::state::lists;
use crate::state::lists::SurfaceId;
use crate::state::raven::State;
use crate::state::space;
use crate::state::toplevel::{FullscreenSlot, OutputId, Toplevel, ToplevelState};
use crate::state::windows;
use vstd::prelude::*;

verus! {

impl State {
    /// Whether the same windows are alive, and the same have a buffer.
    pub open spec fn lives_like(self, other: State) -> bool {
        forall|window: SurfaceId|
            #![trigger self.toplevel(window)]
            #![trigger other.toplevel(window)]
            self.toplevel(window).live == other.toplevel(window).live && self.toplevel(
                window,
            ).has_buffer == other.toplevel(window).has_buffer
    }

    /// Whether the same windows are kept on the same workspaces, with the same marks.
    pub open spec fn keeps_lists(self, other: State) -> bool {
        &&& self.mapped == other.mapped
        &&& self.unmapped == other.unmapped
        &&& self.unmapped_marks == other.unmapped_marks
        &&& self.current == other.current
        &&& self.settings == other.settings
        &&& self.outputs == other.outputs
        &&& self.layouts == other.layouts
        &&& self.owners.len() == other.owners.len()
        &&& self.lives_like(other)
    }

    /// Whether nothing but what clients are told, and what is noted of them, differs.
    pub open spec fn keeps_places(self, other: State) -> bool {
        &&& self.keeps_lists(other)
        &&& self.owners == other.owners
        &&& self.elements == other.elements
    }

    /// Whether every window on a workspace is alive.
    pub open spec fn all_alive(self) -> bool {
        forall|window: SurfaceId|
            #![trigger self.toplevel(window)]
            lists::listed(self.mapped, window) || lists::listed(self.unmapped, window)
                ==> self.toplevel(window).live
    }
}

/// What is consistent stays so while only what clients are told differs.
pub proof fn telling_keeps(before: State, after: State)
    requires
        after.keeps_places(before),
        before.consistent(),
    ensures
        after.consistent(),
        before.sound() ==> after.sound(),
        before.all_alive() ==> after.all_alive(),
{
    assert forall|window: SurfaceId| #[trigger]
        after.unmapped_marks.contains(window) && after.toplevel(window).live implies lists::listed(
        after.unmapped,
        window,
    ) by {
        assert(before.toplevel(window).live);
    }
    assert forall|i: int|
        0 <= i < after.owners.len() && (#[trigger] after.owners[i]) is Some implies after.workspace_holds(
        i,
        after.owners[i].unwrap().surface,
    ) by {
        assert(before.workspace_holds(i, before.owners[i].unwrap().surface));
    }
    if before.all_alive() {
        assert forall|window: SurfaceId|
            #![trigger after.toplevel(window)]
            lists::listed(after.mapped, window) || lists::listed(
                after.unmapped,
                window,
            ) implies after.toplevel(window).live by {
            assert(before.toplevel(window).live);
        }
    }
}

/// Asking a toplevel for another state changes nothing but what its client is told.
pub proof fn asking_keeps_places(
    state: State,
    window: SurfaceId,
    pending: ToplevelState,
    fallback: Option<Size>,
)
    ensures
        state.with_pending(window, pending).keeps_places(state),
        state.with_size_synced(window, fallback).keeps_places(state),
        state.configured(window).keeps_places(state),
        state.configured_if_changed(window).keeps_places(state),
        state.asked(window, pending, fallback).keeps_places(state),
{
    let asked = state.with_pending(window, pending);
    assert(asked.keeps_places(state));
    let synced = asked.with_size_synced(window, fallback);
    assert(synced.keeps_places(state));
    assert(synced.configured_if_changed(window).keeps_places(synced));
}

/// Marking windows active leaves them alive or not, with a buffer or not.
pub proof fn activating_keeps_alive(
    toplevels: Map<SurfaceId, Toplevel>,
    stack: Seq<SurfaceId>,
    focused: Option<SurfaceId>,
)
    ensures
        forall|window: SurfaceId|
            (#[trigger] windows::known(
                windows::activated(toplevels, stack, focused),
                window,
            )).live == windows::known(toplevels, window).live,
        forall|window: SurfaceId|
            (#[trigger] windows::known(
                windows::activated(toplevels, stack, focused),
                window,
            )).has_buffer == windows::known(toplevels, window).has_buffer,
    decreases stack.len(),
{
    if stack.len() > 0 {
        let before = windows::activated(toplevels, stack.drop_last(), focused);
        let after = windows::activated(toplevels, stack, focused);
        activating_keeps_alive(toplevels, stack.drop_last(), focused);
        assert forall|window: SurfaceId|
            (#[trigger] windows::known(after, window)).live == windows::known(
                toplevels,
                window,
            ).live && windows::known(after, window).has_buffer == windows::known(
                toplevels,
                window,
            ).has_buffer by {
            assert(windows::known(before, window).live == windows::known(toplevels, window).live);
        }
    }
}

/// Putting a mapped window onto the screen.
pub proof fn topping_keeps(state: State, window: SurfaceId, location: Point, activate: bool)
    requires
        state.consistent(),
        lists::listed(state.mapped, window),
    ensures
        state.topped(window, location, activate).consistent(),
        state.topped(window, location, activate).keeps_lists(state),
        state.topped(window, location, activate).owners == state.owners,
        state.topped(window, location, activate).on_screen(window),
{
    let after = state.topped(window, location, activate);
    space::topped_keeps(state.elements, window, location);
    space::place_of_finds(after.elements, window);
    assert(space::stack(after.elements).contains(window));
    activating_keeps_alive(state.toplevels, space::stack(after.elements), Some(window));
    assert forall|other: SurfaceId|
        #![trigger after.toplevel(other)]
        #![trigger state.toplevel(other)]
        after.toplevel(other).live == state.toplevel(other).live && after.toplevel(
            other,
        ).has_buffer == state.toplevel(other).has_buffer by {
        assert(after.toplevel(other) == windows::known(after.toplevels, other));
        assert(state.toplevel(other) == windows::known(state.toplevels, other));
    }
    let middle = State { elements: after.elements, ..state };
    assert(middle.consistent());
    telling_keeps(middle, after);
}

/// Putting a mapped window into a rectangle.
pub proof fn mapping_keeps(state: State, window: SurfaceId, rect: Rectangle, activate: bool)
    requires
        state.consistent(),
        lists::listed(state.mapped, window),
    ensures
        state.mapped_to(window, rect, activate).consistent(),
        state.mapped_to(window, rect, activate).keeps_lists(state),
        state.mapped_to(window, rect, activate).owners == state.owners,
        state.mapped_to(window, rect, activate).on_screen(window),
{
    let given = state.with_assigned(window, rect);
    assert(given.keeps_places(state));
    telling_keeps(state, given);
    topping_keeps(given, window, rect.loc, activate);
}

/// What is on the screen is mapped.
pub proof fn shown_is_mapped(state: State, window: SurfaceId)
    requires
        state.consistent(),
        state.on_screen(window),
    ensures
        lists::listed(state.mapped, window),
{
    space::place_of_finds(state.elements, window);
}

/// Raising a window.
pub proof fn raising_keeps(state: State, window: SurfaceId)
    requires
        state.consistent(),
    ensures
        state.raised(window).consistent(),
        state.raised(window).keeps_lists(state),
        state.raised(window).owners == state.owners,
        forall|other: SurfaceId| #[trigger]
            state.raised(window).on_screen(other) == state.on_screen(other),
{
    if let Some(location) = space::place_of(state.elements, window) {
        shown_is_mapped(state, window);
        topping_keeps(state, window, location, true);
        space::topped_keeps(state.elements, window, location);
        let after = state.raised(window);
        assert forall|other: SurfaceId| #[trigger]
            after.on_screen(other) == state.on_screen(other) by {
            space::place_of_finds(after.elements, other);
            space::place_of_finds(state.elements, other);
            space::place_of_finds(state.elements, window);
        }
    }
}

/// Raising windows one after the other.
pub proof fn raising_each_keeps(state: State, list: Seq<SurfaceId>)
    requires
        state.consistent(),
    ensures
        state.each_raised(list).consistent(),
        state.each_raised(list).keeps_lists(state),
        state.each_raised(list).owners == state.owners,
        forall|other: SurfaceId| #[trigger]
            state.each_raised(list).on_screen(other) == state.on_screen(other),
    decreases list.len(),
{
    if list.len() > 0 {
        raising_each_keeps(state, list.drop_last());
        raising_keeps(state.each_raised(list.drop_last()), list.last());
    }
}

/// Putting the floating windows above the tiled ones.
pub proof fn restacking_keeps(state: State)
    requires
        state.consistent(),
    ensures
        state.restacked().consistent(),
        state.restacked().keeps_lists(state),
        state.restacked().owners == state.owners,
        forall|other: SurfaceId| #[trigger]
            state.restacked().on_screen(other) == state.on_screen(other),
{
    let stack = space::stack(state.elements);
    let tiled = state.sorted_out(stack, false);
    raising_each_keeps(state, tiled);
    raising_each_keeps(state.each_raised(tiled), state.sorted_out(stack, true));
}

/// Raising a window within its layer.
pub proof fn raising_in_layer_keeps(state: State, window: SurfaceId)
    requires
        state.consistent(),
    ensures
        state.raised_in_layer(window).consistent(),
        state.raised_in_layer(window).keeps_lists(state),
        state.raised_in_layer(window).owners == state.owners,
{
    raising_keeps(state, window);
    restacking_keeps(state.raised(window));
}

/// Taking a window off the screen.
pub proof fn unmapping_keeps(state: State, window: SurfaceId)
    requires
        state.consistent(),
    ensures
        state.unmapped_window(window).consistent(),
        state.unmapped_window(window).keeps_lists(state),
        state.unmapped_window(window).owners == state.owners,
        !state.unmapped_window(window).on_screen(window),
{
    let after = state.unmapped_window(window);
    space::lifted_leaves(state.elements, window);
    space::place_of_finds(after.elements, window);
    let middle = State { elements: after.elements, ..state };
    assert(middle.consistent());
    assert(after.keeps_places(middle));
    telling_keeps(middle, after);
}

/// Fewer fullscreen windows than before.
pub proof fn fewer_owners_keep(before: State, after: State)
    requires
        before.consistent(),
        after == (State { owners: after.owners, ..before }),
        after.owners.len() == before.owners.len(),
        forall|i: int|
            0 <= i < after.owners.len() && (#[trigger] after.owners[i]) is Some ==> after.owners[i]
                == before.owners[i],
    ensures
        after.consistent(),
        after.keeps_lists(before),
{
    assert forall|i: int|
        0 <= i < after.owners.len() && (#[trigger] after.owners[i]) is Some implies after.workspace_holds(
        i,
        after.owners[i].unwrap().surface,
    ) by {
        assert(before.owners[i] is Some);
        assert(before.workspace_holds(i, before.owners[i].unwrap().surface));
    }
}

/// Taking a workspace's fullscreen away.
pub proof fn clearing_owner_keeps(state: State, workspace: int, tell: bool)
    requires
        state.consistent(),
    ensures
        state.owner_cleared(workspace, tell).consistent(),
        state.owner_cleared(workspace, tell).keeps_lists(state),
        state.owner_cleared(workspace, tell).elements == state.elements,
        forall|i: int|
            0 <= i < state.owners.len() ==> #[trigger] state.owner_cleared(
                workspace,
                tell,
            ).owners[i] == (if i == workspace {
                None
            } else {
                state.owners[i]
            }),
{
    if let Some(slot) = state.slot(workspace) {
        let cleared = State { owners: state.owners.update(workspace, None), ..state };
        fewer_owners_keep(state, cleared);
        asking_keeps_places(
            cleared,
            slot.surface,
            cleared.protocol_pending(slot.surface, false, None),
            cleared.told_fallback(slot.surface, None),
        );
        telling_keeps(cleared, cleared.fullscreen_asked(slot.surface, false, None));
    }
}

/// A window is on one workspace only.
pub proof fn holder_is_only(state: State, window: SurfaceId, index: int)
    requires
        state.consistent(),
        state.sound(),
        state.workspace_holds(index, window),
    ensures
        0 <= index < state.mapped.len(),
        state.workspace_of(window) == Some(index as usize),
        forall|other: int| #[trigger]
            state.workspace_holds(other, window) ==> other == index,
        state.has_window(window),
{
    lists::index_of_finds(state.mapped, window);
    lists::index_of_finds(state.unmapped, window);
    if 0 <= index < state.mapped.len() && state.mapped[index].contains(window) {
        lists::index_of_is_only(state.mapped, window, index);
        assert(lists::listed(state.mapped, window));
    } else {
        lists::index_of_is_only(state.unmapped, window, index);
        assert(lists::listed(state.unmapped, window));
    }
    assert forall|other: int| #[trigger] state.workspace_holds(other, window) implies other
        == index by {
        if 0 <= other < state.mapped.len() && state.mapped[other].contains(window) {
            lists::index_of_is_only(state.mapped, window, other);
        } else {
            lists::index_of_is_only(state.unmapped, window, other);
        }
    }
}

/// A window that the state has is on a workspace.
pub proof fn window_has_workspace(state: State, window: SurfaceId)
    requires
        state.consistent(),
        state.sound(),
        state.has_window(window),
    ensures
        state.workspace_of(window) is Some,
        state.workspace_holds(state.workspace_of(window).unwrap() as int, window),
{
    lists::index_of_finds(state.mapped, window);
    lists::index_of_finds(state.unmapped, window);
    if state.on_screen(window) {
        shown_is_mapped(state, window);
    }
}

/// Giving a window the fullscreen of its workspace; the other workspaces keep theirs, but for
/// the window itself.
pub proof fn assigning_owner_keeps(
    state: State,
    workspace: int,
    window: SurfaceId,
    output: Option<OutputId>,
)
    requires
        state.consistent(),
        state.sound(),
        state.workspace_holds(workspace, window),
    ensures
        state.owner_assigned(workspace, window, output).consistent(),
        state.owner_assigned(workspace, window, output).keeps_lists(state),
        state.owner_assigned(workspace, window, output).elements == state.elements,
        state.owner_assigned(workspace, window, output).owners == state.owners.update(
            workspace,
            Some(FullscreenSlot { surface: window, output }),
        ),
{
    holder_is_only(state, window, workspace);
    clearing_owner_keeps(state, workspace, true);
    let free = match state.slot(workspace) {
        Some(slot) => if slot.surface != window {
            state.owner_cleared(workspace, true)
        } else {
            state
        },
        None => state,
    };
    assert(free.consistent());
    assert(free.keeps_lists(state));
    let after = state.owner_assigned(workspace, window, output);
    let target = state.owners.update(workspace, Some(FullscreenSlot { surface: window, output }));
    assert forall|i: int| 0 <= i < state.owners.len() implies after.owners[i] == target[i] by {
        if i != workspace && free.owners[i] is Some {
            assert(free.workspace_holds(i, free.owners[i].unwrap().surface));
            assert(state.workspace_holds(i, free.owners[i].unwrap().surface));
        }
    }
    assert(after.owners =~= target);
    assert forall|i: int|
        0 <= i < after.owners.len() && (#[trigger] after.owners[i]) is Some implies after.workspace_holds(
        i,
        after.owners[i].unwrap().surface,
    ) by {
        if i != workspace {
            assert(free.owners[i] is Some);
            assert(free.workspace_holds(i, free.owners[i].unwrap().surface));
        }
    }
    assert forall|i: int, j: int|
        0 <= i < j < after.owners.len() && (#[trigger] after.owners[i]) is Some && (
        #[trigger] after.owners[j]) is Some implies after.owners[i].unwrap().surface
        != after.owners[j].unwrap().surface by {
        assert(after.workspace_holds(i, after.owners[i].unwrap().surface));
        assert(after.workspace_holds(j, after.owners[j].unwrap().surface));
        assert(state.workspace_holds(i, after.owners[i].unwrap().surface));
        assert(state.workspace_holds(j, after.owners[j].unwrap().surface));
        holder_is_only(state, after.owners[i].unwrap().surface, i);
    }
    let listed = State { owners: after.owners, ..free };
    assert(after == listed);
    assert(after.marks_unmapped()) by {
        assert forall|other: SurfaceId| #[trigger]
            after.unmapped_marks.contains(other) && after.toplevel(
                other,
            ).live implies lists::listed(after.unmapped, other) by {
            assert(free.toplevel(other).live);
        }
    }
}

} // verus!
