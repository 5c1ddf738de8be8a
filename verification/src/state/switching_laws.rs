//! Laws of the keys that change what is seen: a switch shows the windows of the new workspace alone, a
//! window floats or not by turns, and the focus goes up and down the stack.

use crate::geometry::{Rectangle, WindowGeometry};
use crate::state::fullscreen_laws;
use crate::state::keeping;
use crate::state::keyboard;
use crate::state::keyboard::Action;
use crate::state::laws;
use crate::state::lists;
use crate::state::lists::SurfaceId;
use crate::state::raven::{State, WORKSPACE_COUNT};
use crate::state::settling;
use crate::state::showing;
use crate::state::space;
use crate::state::space::Element;
use crate::state::staying;
use crate::state::tiling_laws;
use crate::state::workspace_laws;
use vstd::prelude::*;

verus! {

impl State {
    /// Whether every window on the screen is one of the current workspace.
    pub open spec fn shows_current_only(self) -> bool {
        forall|window: SurfaceId| #[trigger]
            space::stack(self.elements).contains(window)
                ==> self.mapped[self.current as int].contains(window)
    }

    /// Whether nothing that was asked for while they were off the screen waits for the windows of a
    /// workspace.
    pub open spec fn nothing_waits(self, index: int) -> bool {
        forall|window: SurfaceId| #[trigger]
            self.mapped[index].contains(window) ==> !self.pending_fullscreen.contains(window)
                && !self.pending_maximized.contains(window)
    }

    /// The tiled windows of a workspace, in its order: those with a buffer that do not float.
    pub open spec fn tiled_of(self, index: int) -> Seq<SurfaceId> {
        self.mapped[index].filter(
            |window: SurfaceId| self.toplevel(window).has_buffer && !self.floats(window),
        )
    }
}

proof fn unmapping_all_takes_off(state: State, list: Seq<SurfaceId>)
    ensures
        forall|window: SurfaceId| #[trigger]
            space::stack(state.all_unmapped(list).elements).contains(window) ==> space::stack(
                state.elements,
            ).contains(window) && !list.contains(window),
        state.all_unmapped(list) == (State {
            elements: state.all_unmapped(list).elements,
            assigned: state.all_unmapped(list).assigned,
            reported: state.all_unmapped(list).reported,
            ..state
        }),
    decreases list.len(),
{
    if list.len() > 0 {
        let rest = list.drop_last();
        let last = list.last();
        unmapping_all_takes_off(state, rest);
        let before = state.all_unmapped(rest);
        space::lifted_leaves(before.elements, last);
        let after = state.all_unmapped(list);
        assert forall|window: SurfaceId| #[trigger]
            space::stack(after.elements).contains(window) implies space::stack(
            state.elements,
        ).contains(window) && !list.contains(window) by {
            assert(space::stack(before.elements).contains(window) && window != last);
            if list.contains(window) {
                let k = choose|k: int| 0 <= k < list.len() && list[k] == window;
                assert(k < rest.len());
                assert(rest[k] == window);
            }
        }
    }
}

proof fn arriving_stacks(state: State, list: Seq<SurfaceId>)
    requires
        state.elements.len() == 0,
        list.no_duplicates(),
        forall|window: SurfaceId| #[trigger]
            list.contains(window) ==> !state.unmapped_marks.contains(window)
                && !state.pending_fullscreen.contains(window)
                && !state.pending_maximized.contains(window),
    ensures
        space::stack(state.all_arrived(list).elements) == list,
        state.all_arrived(list).lives_like(state),
        state.all_arrived(list) == (State {
            elements: state.all_arrived(list).elements,
            assigned: state.all_arrived(list).assigned,
            toplevels: state.all_arrived(list).toplevels,
            configures: state.all_arrived(list).configures,
            ..state
        }),
    decreases list.len(),
{
    if list.len() > 0 {
        let rest = list.drop_last();
        let last = list.last();
        assert(list[list.len() - 1] == last);
        assert(rest.no_duplicates());
        assert forall|window: SurfaceId| #[trigger] rest.contains(window) implies
            !state.unmapped_marks.contains(window) && !state.pending_fullscreen.contains(window)
            && !state.pending_maximized.contains(window) by {
            let k = choose|k: int| 0 <= k < rest.len() && rest[k] == window;
            assert(list[k] == window);
            assert(list.contains(window));
        }
        arriving_stacks(state, rest);
        let before = state.all_arrived(rest);
        assert(list.contains(last));
        assert(!space::stack(before.elements).contains(last)) by {
            if rest.contains(last) {
                let k = choose|k: int| 0 <= k < rest.len() && rest[k] == last;
                assert(list[k] == list[list.len() - 1]);
            }
        }
        settling::lifting_nothing(before.elements, last);
        reveal(State::pending_applied);
        let after = state.all_arrived(list);
        let shown = before.mapped_to(last, before.initial_rect(last), false);
        assert(shown.elements == before.elements.push(
            Element { window: last, location: before.initial_rect(last).loc },
        ));
        let told = if shown.toplevel(last).configured {
            shown.configured_if_changed(last)
        } else {
            shown
        };
        assert(told.elements == shown.elements);
        assert(told.pending_applied(last) == told);
        assert(after == told);
        assert(space::stack(after.elements) =~= rest.push(last)) by {
            assert(space::stack(before.elements) == rest);
            assert forall|i: int| 0 <= i < rest.len() implies space::stack(after.elements)[i]
                == rest[i] by {
                assert(space::stack(before.elements)[i] == before.elements[i].window);
            }
        }
        assert(rest.push(last) =~= list);
        assert(shown.lives_like(before));
        assert(after.lives_like(shown));
        assert forall|window: SurfaceId|
            #![trigger after.toplevel(window)]
            #![trigger state.toplevel(window)]
            after.toplevel(window).live == state.toplevel(window).live && after.toplevel(
                window,
            ).has_buffer == state.toplevel(window).has_buffer by {
            assert(before.toplevel(window).live == state.toplevel(window).live);
            assert(shown.toplevel(window).live == before.toplevel(window).live);
        }
    } else {
        assert(space::stack(state.elements) =~= list);
    }
}

/// What a workspace shows before the screen is laid out: its windows alone, in their order.
proof fn entering_stacks(state: State, target: int)
    requires
        state.orderly(),
        state.all_alive(),
        state.shows_current_only(),
        0 <= target < WORKSPACE_COUNT,
        target != state.current,
        state.nothing_waits(target),
    ensures
        ({
            let entered = state.workspace_entered(target);
            &&& space::stack(entered.elements) == state.mapped[target]
            &&& entered.lives_like(state)
            &&& entered.current == target
            &&& entered.mapped == state.mapped
            &&& entered.floating == state.floating
            &&& entered.layouts == state.layouts
            &&& entered.outputs == state.outputs
            &&& entered.owners == state.owners
            &&& entered.orderly()
            &&& entered.all_alive()
        }),
{
    laws::pruning_stays_orderly(state);
    let list = state.mapped[state.current as int];
    unmapping_all_takes_off(state, list);
    workspace_laws::unmapping_all_stays_orderly(state, list);
    let left = state.all_unmapped(list);
    assert(left.elements.len() == 0) by {
        if left.elements.len() > 0 {
            let window = left.elements[0].window;
            assert(space::stack(left.elements)[0] == window);
            assert(space::stack(left.elements).contains(window));
        }
    }
    let entered = State { current: target as usize, ..left };
    assert(entered.orderly());
    assert(entered.all_alive()) by {
        assert forall|window: SurfaceId|
            #![trigger entered.toplevel(window)]
            lists::listed(entered.mapped, window) || lists::listed(
                entered.unmapped,
                window,
            ) implies entered.toplevel(window).live by {
            assert(state.toplevel(window).live);
        }
    }
    let next = state.mapped[target];
    assert forall|window: SurfaceId| #[trigger] next.contains(window) implies
        !entered.unmapped_marks.contains(window) && !entered.pending_fullscreen.contains(window)
        && !entered.pending_maximized.contains(window) by {
        assert(state.mapped[target].contains(window));
        assert(lists::listed(state.mapped, window));
    }
    assert forall|i: int| 0 <= i < next.len() implies lists::listed(
        entered.mapped,
        #[trigger] next[i],
    ) by {
        assert(entered.mapped[target].contains(next[i]));
    }
    arriving_stacks(entered, next);
    workspace_laws::arriving_all_stays_orderly(entered, next);
    assert forall|window: SurfaceId|
        #![trigger entered.all_arrived(next).toplevel(window)]
        #![trigger state.toplevel(window)]
        entered.all_arrived(next).toplevel(window).live == state.toplevel(window).live
            && entered.all_arrived(next).toplevel(window).has_buffer == state.toplevel(
            window,
        ).has_buffer by {
        assert(entered.toplevel(window) == state.toplevel(window));
    }
}

/// A switch to a workspace without a fullscreen window gives its tiled windows, in their order, the
/// tiles of the arrangement for as many as they are, in what is free of the output.
pub proof fn switch_fills_tiles(
    state: State,
    target: int,
    area: Rectangle,
    tiles: Seq<WindowGeometry>,
    at: int,
)
    requires
        state.orderly(),
        state.all_alive(),
        state.shows_current_only(),
        0 <= target < WORKSPACE_COUNT,
        target != state.current,
        state.nothing_waits(target),
        state.slot(target) is None,
        state.is_free(area),
        state.arranges(area, state.tiled_of(target).len(), tiles),
        0 <= at < state.tiled_of(target).len(),
        at < tiles.len(),
    ensures
        state.workspace_switched(target).1 is Ok,
        state.workspace_switched(target).0.current == target,
        state.workspace_switched(target).0.fills_tile(state.tiled_of(target)[at], area, tiles[at]),
{
    reveal(State::workspace_switched);
    entering_stacks(state, target);
    let entered = state.workspace_entered(target);
    let list = state.mapped[target];
    entered_tiles(state, entered, target);
    tiling_laws::layout_settles_tiles(entered, area, tiles, at);
    let laid_out = entered.laid_out().0;
    laws::layout_stays_orderly(entered);
    settling::refocusing_leaves(
        laid_out,
        state.tiled_of(target)[at],
        crate::geometry::placed(area, tiles[at]),
    );
    fullscreen_laws::refocusing_stays_orderly(laid_out);
}

proof fn entered_tiles(state: State, entered: State, target: int)
    requires
        0 <= target < state.mapped.len(),
        space::stack(entered.elements) == state.mapped[target],
        entered.lives_like(state),
        entered.current == target,
        entered.mapped == state.mapped,
        entered.floating == state.floating,
    ensures
        entered.to_tile(None) == state.tiled_of(target),
{
    let list = state.mapped[target];
    let away = |window: SurfaceId| !entered.on_screen(window);
    assert forall|i: int| 0 <= i < list.len() implies !away(#[trigger] list[i]) by {
        assert(list.contains(list[i]));
        space::place_of_finds(entered.elements, list[i]);
    }
    tiling_laws::none_are_left(list, away);
    settling::filters_agree(list, |window: SurfaceId| !entered.on_screen(window), away);
    assert(list + list.filter(away) =~= list);
    assert forall|i: int| 0 <= i < list.len() implies entered.toplevel(
        #[trigger] list[i],
    ).has_buffer == state.toplevel(list[i]).has_buffer by {}
    settling::filters_agree(
        list,
        |window: SurfaceId|
            entered.toplevel(window).has_buffer && !entered.floats(window) && Some(window)
                != None::<SurfaceId>,
        |window: SurfaceId| state.toplevel(window).has_buffer && !state.floats(window),
    );
}

/// A switch leaves no window on the screen that the new workspace does not hold.
pub proof fn switch_shows_target_only(state: State, target: int, window: SurfaceId)
    requires
        state.orderly(),
        state.all_alive(),
        state.shows_current_only(),
        0 <= target < WORKSPACE_COUNT,
        target != state.current,
        state.nothing_waits(target),
        state.toplevel(window).live,
        !state.workspace_holds(target, window),
    ensures
        !state.workspace_switched(target).0.on_screen(window),
{
    reveal(State::workspace_switched);
    entering_stacks(state, target);
    let entered = state.workspace_entered(target);
    space::place_of_finds(entered.elements, window);
    assert(entered.toplevel(window).live);
    entering_keeps_waiting(state, target);
    assert(!entered.workspace_holds(target, window));
    showing::layout_shows_current(entered, window);
    let laid_out = entered.laid_out().0;
    space::place_of_finds(laid_out.elements, window);
    tiling_laws::refocusing_stays_off(laid_out, window);
    space::place_of_finds(laid_out.refocused().elements, window);
}

proof fn entering_keeps_waiting(state: State, target: int)
    requires
        state.orderly(),
        state.all_alive(),
        state.shows_current_only(),
        0 <= target < WORKSPACE_COUNT,
        target != state.current,
        state.nothing_waits(target),
    ensures
        state.workspace_entered(target).unmapped == state.unmapped,
{
    laws::pruning_stays_orderly(state);
    let list = state.mapped[state.current as int];
    unmapping_all_takes_off(state, list);
    let left = state.all_unmapped(list);
    assert(left.elements.len() == 0) by {
        if left.elements.len() > 0 {
            let window = left.elements[0].window;
            assert(space::stack(left.elements)[0] == window);
            assert(space::stack(left.elements).contains(window));
        }
    }
    let entered = State { current: target as usize, ..left };
    let next = state.mapped[target];
    assert forall|window: SurfaceId| #[trigger] next.contains(window) implies
        !entered.unmapped_marks.contains(window) && !entered.pending_fullscreen.contains(window)
        && !entered.pending_maximized.contains(window) by {
        assert(state.mapped[target].contains(window));
        assert(lists::listed(state.mapped, window));
    }
    arriving_stacks(entered, next);
}

/// A switch to a workspace that does not exist is refused, and so is a move there; nothing changes.
pub proof fn switch_to_nowhere_is_refused(state: State, target: int)
    requires
        state.orderly(),
        target >= WORKSPACE_COUNT,
    ensures
        state.workspace_switched(target).1 is Err,
        state.workspace_switched(target).0 == state,
        state.focused_moved(target).1 is Err,
        state.focused_moved(target).0 == state,
{
    reveal(State::workspace_switched);
    reveal(State::focused_moved);
}

proof fn setting_floating(state: State, window: SurfaceId, floating: bool)
    ensures
        state.with_floating(window, floating).floats(window) == floating,
        forall|other: SurfaceId|
            other != window ==> #[trigger] state.with_floating(window, floating).floats(other)
                == state.floats(other),
{
    lists::without_leaves(state.floating, window);
    let set = state.with_floating(window, floating);
    if floating && !state.floating.contains(window) {
        assert(set.floating[set.floating.len() - 1] == window);
        assert forall|other: SurfaceId| other != window implies #[trigger] set.floats(other)
            == state.floats(other) by {
            if state.floats(other) {
                let k = choose|k: int| 0 <= k < state.floating.len() && state.floating[k] == other;
                assert(set.floating[k] == other);
            }
            if set.floats(other) {
                let k = choose|k: int| 0 <= k < set.floating.len() && set.floating[k] == other;
                assert(state.floating[k] == other);
            }
        }
    }
}

/// Toggling whether the focused window floats: it floats if and only if it did not, and whether any
/// other window floats stays as it was.
pub proof fn floating_toggle_turns(state: State, window: SurfaceId)
    requires
        state.orderly(),
        state.all_alive(),
        state.keyboard_focus == Some(window),
        state.has_window(window),
    ensures
        state.floating_toggled().0.floats(window) == !state.floats(window),
        forall|other: SurfaceId|
            other != window ==> #[trigger] state.floating_toggled().0.floats(other)
                == state.floats(other),
{
    reveal(State::floating_toggled);
    setting_floating(state, window, !state.floats(window));
    let set = state.with_floating(window, !state.floats(window));
    assert(set.keeps_places(state));
    laws::telling_stays_orderly(state, set);
    keeping::telling_keeps(state, set);
    laws::pruning_stays_orderly(set);
    staying::layout_keeps_notes(set);
    if set.on_screen(window) {
        let shown = set.mapped_to(window, set.initial_rect(window), true);
        keeping::shown_is_mapped(set, window);
        keeping::mapping_keeps(set, window, set.initial_rect(window), true);
        laws::orderly_by_lists(set, shown);
        assert(shown.all_alive()) by {
            assert forall|other: SurfaceId|
                #![trigger shown.toplevel(other)]
                lists::listed(shown.mapped, other) || lists::listed(
                    shown.unmapped,
                    other,
                ) implies shown.toplevel(other).live by {
                assert(set.toplevel(other).live);
            }
        }
        laws::pruning_stays_orderly(shown);
        staying::layout_keeps_notes(shown);
    }
    let after = state.floating_toggled().0;
    assert(after.floating == set.floating);
    assert forall|other: SurfaceId| other != window implies #[trigger] after.floats(other)
        == state.floats(other) by {
        assert(set.floats(other) == state.floats(other));
    }
}

/// Once the focused window no longer floats, the tiled windows, that one among them, have the tiles of
/// the arrangement for as many as they are.
pub proof fn sinking_fills_tiles(
    state: State,
    window: SurfaceId,
    area: Rectangle,
    tiles: Seq<WindowGeometry>,
    at: int,
)
    requires
        state.orderly(),
        state.all_alive(),
        state.keyboard_focus == Some(window),
        state.has_window(window),
        state.floats(window),
        state.slot(state.current as int) is None,
        state.is_free(area),
        state.arranges(area, state.with_floating(window, false).to_tile(None).len(), tiles),
        0 <= at < state.with_floating(window, false).to_tile(None).len(),
        at < tiles.len(),
    ensures
        state.floating_toggled().1 is Ok,
        state.floating_toggled().0.fills_tile(
            state.with_floating(window, false).to_tile(None)[at],
            area,
            tiles[at],
        ),
{
    reveal(State::floating_toggled);
    let set = state.with_floating(window, false);
    assert(set.keeps_places(state));
    laws::telling_stays_orderly(state, set);
    keeping::telling_keeps(state, set);
    tiling_laws::layout_fills_tiles(set, area, tiles, at);
}

/// Once the focused window floats, the windows that are still tiled have the tiles of the arrangement
/// for as many as they are.
pub proof fn rising_leaves_tiles(
    state: State,
    window: SurfaceId,
    area: Rectangle,
    tiles: Seq<WindowGeometry>,
    at: int,
)
    requires
        state.orderly(),
        state.all_alive(),
        state.keyboard_focus == Some(window),
        state.on_screen(window),
        !state.floats(window),
        state.slot(state.current as int) is None,
        state.is_free(area),
        state.arranges(area, state.to_tile(Some(window)).len(), tiles),
        0 <= at < state.to_tile(Some(window)).len(),
        at < tiles.len(),
    ensures
        state.floating_toggled().1 is Ok,
        state.floating_toggled().0.fills_tile(state.to_tile(Some(window))[at], area, tiles[at]),
{
    reveal(State::floating_toggled);
    let set = state.with_floating(window, true);
    assert(set.keeps_places(state));
    laws::telling_stays_orderly(state, set);
    keeping::telling_keeps(state, set);
    let shown = set.mapped_to(window, set.initial_rect(window), true);
    keeping::shown_is_mapped(set, window);
    keeping::mapping_keeps(set, window, set.initial_rect(window), true);
    laws::orderly_by_lists(set, shown);
    assert(shown.all_alive()) by {
        assert forall|other: SurfaceId|
            #![trigger shown.toplevel(other)]
            lists::listed(shown.mapped, other) || lists::listed(
                shown.unmapped,
                other,
            ) implies shown.toplevel(other).live by {
            assert(set.toplevel(other).live);
        }
    }
    risen_tiles_rest(state, window);
    tiling_laws::layout_fills_tiles(shown, area, tiles, at);
}

proof fn risen_tiles_rest(state: State, window: SurfaceId)
    requires
        state.orderly(),
        state.on_screen(window),
        !state.floats(window),
    ensures
        ({
            let set = state.with_floating(window, true);
            set.mapped_to(window, set.initial_rect(window), true).to_tile(None)
        }) == state.to_tile(Some(window)),
{
    let set = state.with_floating(window, true);
    let rect = set.initial_rect(window);
    let shown = set.mapped_to(window, rect, true);
    keeping::shown_is_mapped(set, window);
    assert(set.keeps_places(state));
    keeping::telling_keeps(state, set);
    keeping::mapping_keeps(set, window, rect, true);
    setting_floating(state, window, true);
    let stack = space::stack(state.elements);
    let list = state.mapped[state.current as int];
    let under = space::stack(space::lifted(state.elements, window));
    let other = |one: SurfaceId| one != window;
    settling::lifted_is_filter(state.elements, window);
    settling::filters_agree(stack, |one: SurfaceId| one != window, other);
    assert(space::stack(shown.elements) =~= under + seq![window]);
    let away = |one: SurfaceId| !state.on_screen(one);
    space::topped_keeps(state.elements, window, rect.loc);
    assert forall|one: SurfaceId| #[trigger] shown.on_screen(one) == state.on_screen(one) by {
        space::place_of_finds(state.elements, one);
        space::place_of_finds(shown.elements, one);
    }
    settling::filters_agree(list, |one: SurfaceId| !shown.on_screen(one), away);
    settling::filters_agree(list, |one: SurfaceId| !state.on_screen(one), away);
    let waiting = list.filter(away);
    let sits = |one: SurfaceId|
        shown.toplevel(one).has_buffer && !shown.floats(one) && Some(one) != None::<SurfaceId>;
    let stays = |one: SurfaceId|
        state.toplevel(one).has_buffer && !state.floats(one) && Some(one) != Some(window);
    assert forall|one: SurfaceId| #[trigger] sits(one) == stays(one) by {
        assert(shown.toplevel(one).has_buffer == set.toplevel(one).has_buffer);
        if one != window {
            assert(set.floats(one) == state.floats(one));
        }
    }
    settling::filters_agree(
        under + seq![window] + waiting,
        |one: SurfaceId|
            shown.toplevel(one).has_buffer && !shown.floats(one) && Some(one) != None::<SurfaceId>,
        stays,
    );
    settling::filters_agree(
        stack + waiting,
        |one: SurfaceId|
            state.toplevel(one).has_buffer && !state.floats(one) && Some(one) != Some(window),
        stays,
    );
    Seq::filter_distributes_over_add(under + seq![window], waiting, stays);
    Seq::filter_distributes_over_add(under, seq![window], stays);
    Seq::filter_distributes_over_add(stack, waiting, stays);
    settling::filter_twice(stack, other, stays, stays);
    tiling_laws::none_are_left(seq![window], stays);
    assert(under.filter(stays) + seq![window].filter(stays) =~= under.filter(stays));
}

proof fn place_on_stack_finds(stack: Seq<SurfaceId>, at: int)
    requires
        stack.no_duplicates(),
        stack.len() <= usize::MAX,
        0 <= at < stack.len(),
    ensures
        keyboard::place_on_stack(stack, stack[at]) == Some(at as usize),
    decreases at,
{
    if at > 0 {
        let rest = stack.skip(1);
        assert(rest.no_duplicates());
        assert(stack[0] != stack[at]);
        assert(rest[at - 1] == stack[at]);
        place_on_stack_finds(rest, at - 1);
    }
}

/// The focus goes to the window right above the focused one, or right below it; at the top or at the
/// bottom it stays.
pub proof fn focus_goes_by_one(state: State, at: int)
    requires
        state.orderly(),
        state.elements.len() <= usize::MAX,
        0 <= at < state.elements.len(),
        state.keyboard_focus == Some(state.elements[at].window),
    ensures
        at + 1 < state.elements.len() ==> state.focus_after(Action::FocusNext) == Some(
            state.elements[at + 1].window,
        ),
        at + 1 == state.elements.len() ==> state.focus_after(Action::FocusNext)
            == state.keyboard_focus,
        at > 0 ==> state.focus_after(Action::FocusPrevious) == Some(state.elements[at - 1].window),
        at == 0 ==> state.focus_after(Action::FocusPrevious) == state.keyboard_focus,
{
    let stack = space::stack(state.elements);
    settling::stack_is_single(state.elements);
    place_on_stack_finds(stack, at);
    space::place_of_finds(state.elements, stack[at]);
    assert(stack.contains(stack[at]));
    assert(state.on_screen(stack[at]));
}

/// A window that gets the keyboard has it, and is the topmost of those that float as it does, while no
/// window of the current workspace is fullscreen.
pub proof fn focused_window_is_on_top(state: State, window: SurfaceId, other: int)
    requires
        state.orderly(),
        state.slot(state.current as int) is None,
        state.keyboard_focus != Some(window),
        state.on_screen(window),
        0 <= other < state.focus_set(Some(window)).elements.len(),
        state.floats(state.focus_set(Some(window)).elements[other].window) == state.floats(window),
    ensures
        state.focus_set(Some(window)).keyboard_focus == Some(window),
        exists|at: int|
            other <= at < state.focus_set(Some(window)).elements.len() && (
            #[trigger] state.focus_set(Some(window)).elements[at]).window == window,
{
    reveal(State::focus_set);
    let raised = state.raised(window);
    let layered = raised.restacked();
    fullscreen_laws::activation_keeps_places(
        layered,
        space::stack(layered.elements),
        Some(window),
    );
    assert(state.focus_set(Some(window)).elements == layered.elements);
    let location = space::place_of(state.elements, window).unwrap();
    space::topped_keeps(state.elements, window, location);
    assert(raised.elements.last().window == window);
    restacking_keeps_last(raised, window, other);
}

proof fn restacking_keeps_last(state: State, window: SurfaceId, other: int)
    requires
        space::one_each(state.elements),
        state.elements.len() > 0,
        state.elements.last().window == window,
        state.owner_window(state.current as int) is None,
        0 <= other < state.restacked().elements.len(),
        state.floats(state.restacked().elements[other].window) == state.floats(window),
    ensures
        exists|at: int|
            other <= at < state.restacked().elements.len() && (
            #[trigger] state.restacked().elements[at]).window == window,
{
    let stack = space::stack(state.elements);
    let tiled = state.sorted_out(stack, false);
    let floating = state.sorted_out(stack, true);
    settling::stack_is_single(state.elements);
    settling::sorted_out_is_filter(state, stack, false);
    settling::sorted_out_is_filter(state, stack, true);
    settling::filter_keeps_single(stack, |one: SurfaceId| state.floats(one) == false);
    settling::filter_keeps_single(stack, |one: SurfaceId| state.floats(one) == true);
    assert(stack.last() == window);
    let after = state.restacked().elements;
    let n = state.elements.len() as int;
    if stack.len() >= 2 && tiled.len() > 0 && floating.len() > 0 {
        assert forall|i: int| 0 <= i < tiled.len() implies stack.contains(#[trigger] tiled[i]) by {
            assert(tiled.contains(tiled[i]));
        }
        settling::raising_each_tops(state, tiled);
        let middle = state.each_raised(tiled);
        assert forall|i: int| 0 <= i < floating.len() implies space::stack(
            middle.elements,
        ).contains(#[trigger] floating[i]) by {
            assert(floating.contains(floating[i]));
            assert(stack.contains(floating[i]));
        }
        settling::raising_each_tops(middle, floating);
        let edge = n - floating.len();
        if state.floats(window) {
            assert(floating.last() == window);
            assert(after[edge + (floating.len() - 1)].window == floating[floating.len() - 1]);
            assert(after[n - 1].window == window);
        } else {
            assert(tiled.last() == window);
            raising_shifts(state, tiled, floating);
            assert(after[edge - 1].window == window);
            assert(other < edge) by {
                if other >= edge {
                    assert(after[edge + (other - edge)].window == floating[other - edge]);
                    assert(floating.contains(floating[other - edge]));
                }
            }
        }
    } else {
        assert(after[n - 1].window == window);
    }
}

/// Once the floating windows are raised above the others, the last of the others is right below
/// them.
proof fn raising_shifts(state: State, tiled: Seq<SurfaceId>, floating: Seq<SurfaceId>)
    requires
        space::one_each(state.elements),
        tiled.no_duplicates(),
        floating.no_duplicates(),
        tiled.len() > 0,
        forall|i: int|
            0 <= i < tiled.len() ==> space::stack(state.elements).contains(#[trigger] tiled[i]),
        forall|i: int|
            0 <= i < floating.len() ==> space::stack(state.elements).contains(
                #[trigger] floating[i],
            ),
        !floating.contains(tiled.last()),
    ensures
        floating.len() < state.elements.len(),
        state.each_raised(tiled).each_raised(floating).elements[state.elements.len()
            - floating.len() - 1].window == tiled.last(),
    decreases floating.len(),
{
    settling::raising_each_tops(state, tiled);
    let middle = state.each_raised(tiled);
    let n = state.elements.len() as int;
    assert(middle.elements[n - tiled.len() + (tiled.len() - 1)].window == tiled[tiled.len() - 1]);
    if floating.len() > 0 {
        let rest = floating.drop_last();
        let last = floating.last();
        assert(floating[floating.len() - 1] == last);
        assert forall|i: int| 0 <= i < rest.len() implies space::stack(state.elements).contains(
            #[trigger] rest[i],
        ) by {
            assert(rest[i] == floating[i]);
        }
        assert(!rest.contains(tiled.last())) by {
            if rest.contains(tiled.last()) {
                let k = choose|k: int| 0 <= k < rest.len() && rest[k] == tiled.last();
                assert(floating[k] == tiled.last());
            }
        }
        assert(last != tiled.last()) by {
            assert(floating.contains(last));
        }
        raising_shifts(state, tiled, rest);
        assert forall|i: int| 0 <= i < rest.len() implies space::stack(
            middle.elements,
        ).contains(#[trigger] rest[i]) by {
            assert(space::stack(state.elements).contains(rest[i]));
        }
        settling::raising_each_tops(middle, rest);
        let before = middle.each_raised(rest).elements;
        let after = middle.each_raised(floating).elements;
        assert(space::stack(state.elements).contains(floating[floating.len() - 1]));
        assert(space::stack(middle.elements).contains(last));
        assert(space::stack(before).contains(last));
        let k = choose|k: int| 0 <= k < before.len() && space::stack(before)[k] == last;
        assert(before[k].window == last);
        let edge = n - rest.len();
        assert(k < edge) by {
            if k >= edge {
                assert(before[edge + (k - edge)].window == rest[k - edge]);
                assert(floating[k - edge] == floating[floating.len() - 1]);
            }
        }
        assert(before[edge - 1].window == tiled.last());
        assert(k != edge - 1);
        space::place_of_finds(before, last);
        settling::lifting_removes(before, k);
        assert(after[edge - 2] == before[edge - 1]);
    }
}

} // verus!
