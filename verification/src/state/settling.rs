//! Where windows settle: what the steps of a layout leave of a window that has its place.

use crate::geometry;
use crate::geometry::{Point, Rectangle, WindowGeometry};
use crate::state::lists;
use crate::state::lists::SurfaceId;
use crate::state::raven::State;
use crate::state::space;
use crate::state::space::Element;
use crate::state::toplevel::Toplevel;
use crate::state::windows;
use vstd::prelude::*;

verus! {

impl State {
    /// Whether a window stands at a place of the screen.
    pub open spec fn stands(self, window: SurfaceId, location: Point) -> bool {
        self.elements.contains(Element { window, location })
    }

    /// Whether a window was given a rectangle, stands there, and has its size or is asked for it.
    pub open spec fn settled_in(self, window: SurfaceId, rect: Rectangle) -> bool {
        &&& self.assigned.contains_key(window)
        &&& self.assigned[window] == rect
        &&& self.stands(window, rect.loc)
        &&& self.toplevel(window).geometry == rect.size || self.toplevel(window).pending.size
            == Some(rect.size)
    }
}

/// Two filters, one after the other, are one.
pub proof fn filter_twice(
    list: Seq<SurfaceId>,
    first: spec_fn(SurfaceId) -> bool,
    second: spec_fn(SurfaceId) -> bool,
    both: spec_fn(SurfaceId) -> bool,
)
    requires
        forall|i: int|
            0 <= i < list.len() ==> both(#[trigger] list[i]) == (first(list[i]) && second(list[i])),
    ensures
        list.filter(first).filter(second) == list.filter(both),
    decreases list.len(),
{
    reveal(Seq::filter);
    if list.len() > 0 {
        let rest = list.drop_last();
        assert forall|i: int| 0 <= i < rest.len() implies both(#[trigger] rest[i]) == (first(
            rest[i],
        ) && second(rest[i])) by {
            assert(rest[i] == list[i]);
        }
        filter_twice(rest, first, second, both);
        assert(list[list.len() - 1] == list.last());
        if first(list.last()) {
            assert(list.filter(first).drop_last() =~= rest.filter(first));
        }
    }
}

/// Two filters that agree on a list leave the same of it.
pub proof fn filters_agree(
    list: Seq<SurfaceId>,
    first: spec_fn(SurfaceId) -> bool,
    second: spec_fn(SurfaceId) -> bool,
)
    requires
        forall|i: int| 0 <= i < list.len() ==> first(#[trigger] list[i]) == second(list[i]),
    ensures
        list.filter(first) == list.filter(second),
    decreases list.len(),
{
    reveal(Seq::filter);
    if list.len() > 0 {
        let rest = list.drop_last();
        assert forall|i: int| 0 <= i < rest.len() implies first(#[trigger] rest[i]) == second(
            rest[i],
        ) by {
            assert(rest[i] == list[i]);
        }
        filters_agree(rest, first, second);
        assert(list[list.len() - 1] == list.last());
    }
}

/// What a filter leaves is there, and nothing of it twice.
pub proof fn filter_keeps_single(list: Seq<SurfaceId>, kept: spec_fn(SurfaceId) -> bool)
    requires
        list.no_duplicates(),
    ensures
        list.filter(kept).no_duplicates(),
        forall|window: SurfaceId| #[trigger]
            list.filter(kept).contains(window) <==> list.contains(window) && kept(window),
    decreases list.len(),
{
    reveal(Seq::filter);
    if list.len() > 0 {
        let rest = list.drop_last();
        filter_keeps_single(rest, kept);
        let before = rest.filter(kept);
        let after = list.filter(kept);
        let last = list.last();
        assert(list[list.len() - 1] == last);
        assert(!rest.contains(last)) by {
            if rest.contains(last) {
                let k = choose|k: int| 0 <= k < rest.len() && rest[k] == last;
                assert(list[k] == list[list.len() - 1]);
            }
        }
        assert forall|window: SurfaceId| #[trigger]
            after.contains(window) <==> list.contains(window) && kept(window) by {
            if after.contains(window) {
                let k = choose|k: int| 0 <= k < after.len() && after[k] == window;
                if k < before.len() {
                    assert(before[k] == window);
                    assert(before.contains(window));
                    let j = choose|j: int| 0 <= j < rest.len() && rest[j] == window;
                    assert(list[j] == window);
                }
            }
            if list.contains(window) && kept(window) {
                let k = choose|k: int| 0 <= k < list.len() && list[k] == window;
                if k < rest.len() {
                    assert(rest[k] == window);
                    assert(before.contains(window));
                    let j = choose|j: int| 0 <= j < before.len() && before[j] == window;
                    assert(after[j] == window);
                } else {
                    assert(after[after.len() - 1] == window);
                }
            }
        }
        assert(!before.contains(last));
    }
}

/// Sorting out by floating is a filter.
pub proof fn sorted_out_is_filter(state: State, list: Seq<SurfaceId>, floating: bool)
    ensures
        state.sorted_out(list, floating) == list.filter(
            |window: SurfaceId| state.floats(window) == floating,
        ),
    decreases list.len(),
{
    reveal(Seq::filter);
    if list.len() > 0 {
        sorted_out_is_filter(state, list.drop_last(), floating);
    }
}

/// Taking those with a buffer is a filter.
pub proof fn buffered_is_filter(state: State, list: Seq<SurfaceId>)
    ensures
        state.buffered(list) == list.filter(
            |window: SurfaceId| state.toplevel(window).has_buffer,
        ),
    decreases list.len(),
{
    reveal(Seq::filter);
    if list.len() > 0 {
        buffered_is_filter(state, list.drop_last());
    }
}

/// A list without a window is a filter of it.
pub proof fn without_is_filter(list: Seq<SurfaceId>, window: SurfaceId)
    ensures
        lists::without(list, window) == list.filter(|other: SurfaceId| other != window),
    decreases list.len(),
{
    reveal(Seq::filter);
    if list.len() > 0 {
        without_is_filter(list.drop_last(), window);
    }
}

/// The windows on a screen without one are a filter of those on it.
pub proof fn lifted_is_filter(elements: Seq<Element>, window: SurfaceId)
    ensures
        space::stack(space::lifted(elements, window)) == space::stack(elements).filter(
            |other: SurfaceId| other != window,
        ),
    decreases elements.len(),
{
    reveal(Seq::filter);
    if elements.len() > 0 {
        let rest = elements.drop_last();
        lifted_is_filter(rest, window);
        assert(space::stack(elements).drop_last() =~= space::stack(rest));
        assert(space::stack(elements).last() == elements.last().window);
        if elements.last().window != window {
            assert(space::stack(space::lifted(elements, window)) =~= space::stack(
                space::lifted(rest, window),
            ).push(elements.last().window));
        }
    }
}

/// Where no window is on the screen twice, none is on the stack twice.
pub proof fn stack_is_single(elements: Seq<Element>)
    requires
        space::one_each(elements),
    ensures
        space::stack(elements).no_duplicates(),
{
    let stack = space::stack(elements);
    assert forall|i: int, j: int|
        0 <= i < stack.len() && 0 <= j < stack.len() && i != j implies stack[i] != stack[j] by {
        if i < j {
            assert(elements[i].window != elements[j].window);
        } else {
            assert(elements[j].window != elements[i].window);
        }
    }
}

/// Taking a window off the screen leaves the others where they are.
pub proof fn lifting_leaves_others(elements: Seq<Element>, window: SurfaceId, other: Element)
    requires
        elements.contains(other),
        other.window != window,
    ensures
        space::lifted(elements, window).contains(other),
    decreases elements.len(),
{
    let k = choose|k: int| 0 <= k < elements.len() && elements[k] == other;
    let rest = elements.drop_last();
    let under = space::lifted(rest, window);
    let all = space::lifted(elements, window);
    if k < rest.len() {
        assert(rest[k] == other);
        lifting_leaves_others(rest, window, other);
        let j = choose|j: int| 0 <= j < under.len() && under[j] == other;
        assert(all[j] == other);
    } else {
        assert(all[all.len() - 1] == other);
    }
}

/// What is not on the screen cannot be taken off it.
pub proof fn lifting_nothing(elements: Seq<Element>, window: SurfaceId)
    requires
        !space::stack(elements).contains(window),
    ensures
        space::lifted(elements, window) == elements,
    decreases elements.len(),
{
    if elements.len() > 0 {
        let rest = elements.drop_last();
        assert(!space::stack(rest).contains(window)) by {
            if space::stack(rest).contains(window) {
                let k = choose|k: int| 0 <= k < rest.len() && space::stack(rest)[k] == window;
                assert(space::stack(elements)[k] == window);
            }
        }
        lifting_nothing(rest, window);
        assert(space::stack(elements)[elements.len() - 1] != window);
        assert(rest.push(elements.last()) =~= elements);
    }
}

/// Taking a window off the screen takes one element away.
pub proof fn lifting_removes(elements: Seq<Element>, k: int)
    requires
        space::one_each(elements),
        0 <= k < elements.len(),
    ensures
        space::lifted(elements, elements[k].window) == elements.remove(k),
    decreases elements.len(),
{
    let rest = elements.drop_last();
    let window = elements[k].window;
    assert(space::one_each(rest)) by {
        assert forall|i: int, j: int| 0 <= i < j < rest.len() implies rest[i].window
            != rest[j].window by {
            assert(rest[i] == elements[i] && rest[j] == elements[j]);
        }
    }
    if k < rest.len() {
        assert(rest[k] == elements[k]);
        lifting_removes(rest, k);
        assert(elements[elements.len() - 1].window != window);
        assert(rest.remove(k).push(elements.last()) =~= elements.remove(k));
    } else {
        assert(!space::stack(rest).contains(window)) by {
            if space::stack(rest).contains(window) {
                let j = choose|j: int| 0 <= j < rest.len() && space::stack(rest)[j] == window;
                assert(elements[j].window == elements[k].window);
            }
        }
        lifting_nothing(rest, window);
        assert(rest =~= elements.remove(k));
    }
}

/// A window stands where it is found.
pub proof fn found_stands(elements: Seq<Element>, window: SurfaceId)
    ensures
        space::place_of(elements, window) matches Some(location) ==> elements.contains(
            Element { window, location },
        ),
    decreases elements.len(),
{
    if elements.len() > 0 {
        if elements[0].window == window {
            assert(elements.contains(elements[0]));
        } else {
            let rest = elements.skip(1);
            found_stands(rest, window);
            if let Some(location) = space::place_of(rest, window) {
                let element = Element { window, location };
                let k = choose|k: int| 0 <= k < rest.len() && rest[k] == element;
                assert(elements[k + 1] == element);
            }
        }
    }
}

/// A window is found where it stands.
pub proof fn standing_is_found(elements: Seq<Element>, window: SurfaceId, location: Point)
    requires
        space::one_each(elements),
        elements.contains(Element { window, location }),
    ensures
        space::place_of(elements, window) == Some(location),
{
    space::place_of_finds(elements, window);
    let k = choose|k: int|
        0 <= k < elements.len() && elements[k] == (Element { window, location });
    assert(elements[k].window == window);
}

/// Marking windows active leaves the sizes that they have and are asked for.
pub proof fn activating_keeps_sizes(
    toplevels: Map<SurfaceId, Toplevel>,
    stack: Seq<SurfaceId>,
    focused: Option<SurfaceId>,
    window: SurfaceId,
)
    ensures
        windows::known(windows::activated(toplevels, stack, focused), window).geometry
            == windows::known(toplevels, window).geometry,
        windows::known(windows::activated(toplevels, stack, focused), window).pending.size
            == windows::known(toplevels, window).pending.size,
        windows::known(windows::activated(toplevels, stack, focused), window).pending.fullscreen
            == windows::known(toplevels, window).pending.fullscreen,
        windows::known(windows::activated(toplevels, stack, focused), window).pending.maximized
            == windows::known(toplevels, window).pending.maximized,
    decreases stack.len(),
{
    if stack.len() > 0 {
        activating_keeps_sizes(toplevels, stack.drop_last(), focused, window);
    }
}

/// A window that is put into a rectangle is there, and is not on the screen twice.
pub proof fn mapping_settles(state: State, window: SurfaceId, rect: Rectangle)
    requires
        space::one_each(state.elements),
    ensures
        space::one_each(state.mapped_to(window, rect, false).elements),
        state.mapped_to(window, rect, false).stands(window, rect.loc),
{
    space::topped_keeps(state.elements, window, rect.loc);
    let after = state.mapped_to(window, rect, false).elements;
    assert(after[after.len() - 1] == (Element { window, location: rect.loc }));
}

/// Putting a window into a rectangle leaves another one where it stands.
pub proof fn mapping_leaves_standing(
    state: State,
    window: SurfaceId,
    rect: Rectangle,
    other: SurfaceId,
    location: Point,
)
    requires
        other != window,
        state.stands(other, location),
    ensures
        state.mapped_to(window, rect, false).stands(other, location),
{
    let element = Element { window: other, location };
    lifting_leaves_others(state.elements, window, element);
    let under = space::lifted(state.elements, window);
    let k = choose|k: int| 0 <= k < under.len() && under[k] == element;
    assert(state.mapped_to(window, rect, false).elements[k] == element);
}

/// Putting a window into a rectangle leaves another one that has its place.
pub proof fn mapping_leaves(
    state: State,
    window: SurfaceId,
    rect: Rectangle,
    other: SurfaceId,
    place: Rectangle,
)
    requires
        other != window,
        state.settled_in(other, place),
    ensures
        state.mapped_to(window, rect, false).settled_in(other, place),
{
    mapping_leaves_standing(state, window, rect, other, place.loc);
}

/// A window that is put into its tile has its place there.
pub proof fn tile_settles(state: State, window: SurfaceId, area: Rectangle, tile: WindowGeometry)
    requires
        space::one_each(state.elements),
    ensures
        space::one_each(state.tile_laid_out(window, area, tile).elements),
        state.tile_laid_out(window, area, tile).settled_in(window, geometry::placed(area, tile)),
{
    let target = geometry::placed(area, tile);
    let given = state.with_assigned(window, target);
    let told = given.tiled_asked(window, target.size, area.size);
    mapping_settles(given, window, target);
    mapping_settles(told, window, target);
    found_stands(state.elements, window);
}

/// A window that is put into its tile leaves another one that has its place.
pub proof fn tile_leaves(
    state: State,
    window: SurfaceId,
    area: Rectangle,
    tile: WindowGeometry,
    other: SurfaceId,
    place: Rectangle,
)
    requires
        other != window,
        state.settled_in(other, place),
    ensures
        state.tile_laid_out(window, area, tile).settled_in(other, place),
{
    let target = geometry::placed(area, tile);
    let given = state.with_assigned(window, target);
    let told = given.tiled_asked(window, target.size, area.size);
    assert(given.settled_in(other, place));
    assert(told.settled_in(other, place));
    mapping_leaves(given, window, target, other, place);
    mapping_leaves(told, window, target, other, place);
}

/// Windows that are put into their tiles leave another one that has its place.
pub proof fn tiles_leave(
    state: State,
    windows: Seq<SurfaceId>,
    area: Rectangle,
    tiles: Seq<WindowGeometry>,
    count: nat,
    other: SurfaceId,
    place: Rectangle,
)
    requires
        count <= windows.len(),
        forall|i: int| 0 <= i < count ==> #[trigger] windows[i] != other,
        state.settled_in(other, place),
    ensures
        state.tiles_laid_out(windows, area, tiles, count).settled_in(other, place),
    decreases count,
{
    if count > 0 {
        let fewer = (count - 1) as nat;
        tiles_leave(state, windows, area, tiles, fewer, other, place);
        tile_leaves(
            state.tiles_laid_out(windows, area, tiles, fewer),
            windows[count - 1],
            area,
            tiles[count - 1],
            other,
            place,
        );
    }
}

/// No window comes onto the screen twice while windows are put into their tiles.
pub proof fn tiles_stay_single(
    state: State,
    windows: Seq<SurfaceId>,
    area: Rectangle,
    tiles: Seq<WindowGeometry>,
    count: nat,
)
    requires
        space::one_each(state.elements),
    ensures
        space::one_each(state.tiles_laid_out(windows, area, tiles, count).elements),
    decreases count,
{
    if count > 0 {
        let fewer = (count - 1) as nat;
        tiles_stay_single(state, windows, area, tiles, fewer);
        tile_settles(
            state.tiles_laid_out(windows, area, tiles, fewer),
            windows[count - 1],
            area,
            tiles[count - 1],
        );
    }
}

/// Every window that is put into its tile has its place there.
pub proof fn tiles_settle(
    state: State,
    windows: Seq<SurfaceId>,
    area: Rectangle,
    tiles: Seq<WindowGeometry>,
    count: nat,
    at: int,
)
    requires
        space::one_each(state.elements),
        windows.no_duplicates(),
        0 <= at < count <= windows.len(),
    ensures
        state.tiles_laid_out(windows, area, tiles, count).settled_in(
            windows[at],
            geometry::placed(area, tiles[at]),
        ),
    decreases count,
{
    let fewer = (count - 1) as nat;
    let before = state.tiles_laid_out(windows, area, tiles, fewer);
    tiles_stay_single(state, windows, area, tiles, fewer);
    if at == count - 1 {
        tile_settles(before, windows[at], area, tiles[at]);
    } else {
        tiles_settle(state, windows, area, tiles, fewer, at);
        assert(windows[count - 1] != windows[at]);
        tile_leaves(
            before,
            windows[count - 1],
            area,
            tiles[count - 1],
            windows[at],
            geometry::placed(area, tiles[at]),
        );
    }
}

/// Raising a window leaves every window that has its place.
pub proof fn raising_leaves(state: State, raised: SurfaceId, window: SurfaceId, place: Rectangle)
    requires
        space::one_each(state.elements),
        state.settled_in(window, place),
    ensures
        state.raised(raised).settled_in(window, place),
{
    if let Some(location) = space::place_of(state.elements, raised) {
        let after = state.raised(raised);
        let element = Element { window, location: place.loc };
        activating_keeps_sizes(
            state.toplevels,
            space::stack(after.elements),
            Some(raised),
            window,
        );
        assert(after.toplevel(window) == windows::known(after.toplevels, window));
        assert(state.toplevel(window) == windows::known(state.toplevels, window));
        if raised == window {
            standing_is_found(state.elements, window, place.loc);
            assert(after.elements[after.elements.len() - 1] == element);
        } else {
            lifting_leaves_others(state.elements, raised, element);
            let under = space::lifted(state.elements, raised);
            let k = choose|k: int| 0 <= k < under.len() && under[k] == element;
            assert(after.elements[k] == element);
        }
    }
}

/// No window comes onto the screen twice while windows are raised.
pub proof fn raising_stays_single(state: State, list: Seq<SurfaceId>)
    requires
        space::one_each(state.elements),
    ensures
        space::one_each(state.each_raised(list).elements),
        forall|window: SurfaceId|
            space::one_each(state.raised(window).elements),
    decreases list.len(),
{
    assert forall|window: SurfaceId| space::one_each(state.raised(window).elements) by {
        if let Some(location) = space::place_of(state.elements, window) {
            space::topped_keeps(state.elements, window, location);
        }
    }
    if list.len() > 0 {
        raising_stays_single(state, list.drop_last());
        raising_stays_single(state.each_raised(list.drop_last()), seq![]);
    }
}

/// Raising windows leaves every window that has its place.
pub proof fn raising_each_leaves(
    state: State,
    list: Seq<SurfaceId>,
    window: SurfaceId,
    place: Rectangle,
)
    requires
        space::one_each(state.elements),
        state.settled_in(window, place),
    ensures
        state.each_raised(list).settled_in(window, place),
    decreases list.len(),
{
    if list.len() > 0 {
        raising_each_leaves(state, list.drop_last(), window, place);
        raising_stays_single(state, list.drop_last());
        raising_leaves(state.each_raised(list.drop_last()), list.last(), window, place);
    }
}

/// Putting the floating windows above the tiled ones leaves every window that has its place.
pub proof fn restacking_leaves(state: State, window: SurfaceId, place: Rectangle)
    requires
        space::one_each(state.elements),
        state.settled_in(window, place),
    ensures
        state.restacked().settled_in(window, place),
{
    let stack = space::stack(state.elements);
    let tiled = state.sorted_out(stack, false);
    raising_each_leaves(state, tiled, window, place);
    raising_stays_single(state, tiled);
    raising_each_leaves(state.each_raised(tiled), state.sorted_out(stack, true), window, place);
}

/// No window comes onto the screen twice while the windows are restacked.
pub proof fn restacking_stays_single(state: State)
    requires
        space::one_each(state.elements),
    ensures
        space::one_each(state.restacked().elements),
{
    let stack = space::stack(state.elements);
    let tiled = state.sorted_out(stack, false);
    raising_stays_single(state, tiled);
    raising_stays_single(state.each_raised(tiled), state.sorted_out(stack, true));
}

/// Telling windows whether they are active leaves every window that has its place.
pub proof fn activation_leaves(
    state: State,
    list: Seq<SurfaceId>,
    focused: Option<SurfaceId>,
    window: SurfaceId,
    place: Rectangle,
)
    requires
        state.settled_in(window, place),
    ensures
        state.activation_told(list, focused).settled_in(window, place),
        state.activation_told(list, focused).elements == state.elements,
    decreases list.len(),
{
    if list.len() > 0 {
        activation_leaves(state, list.drop_last(), focused, window, place);
    }
}

/// A change of focus leaves every window that has its place.
pub proof fn focusing_leaves(
    state: State,
    target: Option<SurfaceId>,
    window: SurfaceId,
    place: Rectangle,
)
    requires
        space::one_each(state.elements),
        state.settled_in(window, place),
    ensures
        state.focus_set(target).settled_in(window, place),
{
    reveal(State::focus_set);
    let focused = match target {
        Some(surface) => if state.has_window(surface) {
            Some(surface)
        } else {
            None
        },
        None => None,
    };
    activation_leaves(state, space::stack(state.elements), focused, window, place);
    if let Some(surface) = target {
        raising_leaves(state, surface, window, place);
        raising_stays_single(state, seq![]);
        let raised = state.raised(surface);
        restacking_leaves(raised, window, place);
        let layered = raised.restacked();
        activation_leaves(layered, space::stack(layered.elements), focused, window, place);
    }
}

/// Giving the keyboard to a window on the screen leaves every window that has its place.
pub proof fn refocusing_leaves(state: State, window: SurfaceId, place: Rectangle)
    requires
        space::one_each(state.elements),
        state.settled_in(window, place),
    ensures
        state.refocused().settled_in(window, place),
{
    reveal(State::refocused);
    activation_leaves(
        state,
        space::stack(state.elements),
        state.keyboard_focus,
        window,
        place,
    );
    focusing_leaves(state, state.next_focus(), window, place);
}

/// Laying the floating windows out leaves all but where windows are.
pub proof fn floating_keeps_rest(state: State, list: Seq<SurfaceId>)
    requires
        space::one_each(state.elements),
    ensures
        space::one_each(state.floating_laid_out(list).elements),
        state.floating_laid_out(list) == (State {
            elements: state.floating_laid_out(list).elements,
            assigned: state.floating_laid_out(list).assigned,
            ..state
        }),
    decreases list.len(),
{
    if list.len() > 0 {
        let rest = list.drop_last();
        floating_keeps_rest(state, rest);
        let before = state.floating_laid_out(rest);
        let rect = before.initial_rect(list.last());
        mapping_settles(before.with_assigned(list.last(), rect), list.last(), rect);
    }
}

/// Laying floating windows out leaves another window where it stands.
pub proof fn floating_leaves_standing(
    state: State,
    list: Seq<SurfaceId>,
    other: SurfaceId,
    location: Point,
)
    requires
        forall|i: int| 0 <= i < list.len() ==> #[trigger] list[i] != other,
        state.stands(other, location),
    ensures
        state.floating_laid_out(list).stands(other, location),
        state.floating_laid_out(list).assigned.contains_key(other)
            == state.assigned.contains_key(other),
        state.floating_laid_out(list).assigned[other] == state.assigned[other],
    decreases list.len(),
{
    if list.len() > 0 {
        let rest = list.drop_last();
        assert forall|i: int| 0 <= i < rest.len() implies #[trigger] rest[i] != other by {
            assert(rest[i] == list[i]);
        }
        assert(list[list.len() - 1] != other);
        floating_leaves_standing(state, rest, other, location);
        let before = state.floating_laid_out(rest);
        let rect = before.initial_rect(list.last());
        mapping_leaves_standing(
            before.with_assigned(list.last(), rect),
            list.last(),
            rect,
            other,
            location,
        );
    }
}

/// A floating window on the screen has its place where it stands.
pub proof fn floating_settles(state: State, list: Seq<SurfaceId>, at: int, location: Point)
    requires
        space::one_each(state.elements),
        list.no_duplicates(),
        0 <= at < list.len(),
        !state.unmapped_marks.contains(list[at]),
        state.stands(list[at], location),
    ensures
        state.floating_laid_out(list).settled_in(
            list[at],
            Rectangle { loc: location, size: state.toplevel(list[at]).geometry },
        ),
    decreases list.len(),
{
    let rest = list.drop_last();
    let last = list.last();
    let window = list[at];
    let place = Rectangle { loc: location, size: state.toplevel(window).geometry };
    let before = state.floating_laid_out(rest);
    floating_keeps_rest(state, rest);
    assert(list[list.len() - 1] == last);
    if at == list.len() - 1 {
        assert forall|i: int| 0 <= i < rest.len() implies #[trigger] rest[i] != window by {
            assert(rest[i] == list[i]);
        }
        floating_leaves_standing(state, rest, window, location);
        standing_is_found(before.elements, window, location);
    } else {
        assert(rest[at] == window);
        floating_settles(state, rest, at, location);
        assert(last != window);
        let rect = before.initial_rect(last);
        let given = before.with_assigned(last, rect);
        assert(given.settled_in(window, place));
        mapping_leaves(given, last, rect, window, place);
        if let Some(found) = before.shown_at(last) {
            assert(before.with_assigned(last, found).settled_in(window, place));
        }
    }
}

/// Every tiled window has its place in its tile once the windows are laid out.
pub proof fn tiled_windows_settle(
    state: State,
    windows: Seq<SurfaceId>,
    tiled: Seq<SurfaceId>,
    area: Rectangle,
    at: int,
)
    requires
        space::one_each(state.elements),
        windows.no_duplicates(),
        tiled == windows.filter(|window: SurfaceId| !state.floats(window)),
        0 <= at < tiled.len(),
        at < space::tiles_for(state.layouts, area.size, tiled.len()).len(),
    ensures
        space::one_each(state.windows_laid_out(windows, area).elements),
        state.windows_laid_out(windows, area).settled_in(
            tiled[at],
            geometry::placed(
                area,
                space::tiles_for(state.layouts, area.size, tiled.len())[at],
            ),
        ),
{
    let placed = state.floating_laid_out(state.sorted_out(windows, true));
    floating_keeps_rest(state, state.sorted_out(windows, true));
    sorted_out_is_filter(placed, windows, false);
    filters_agree(
        windows,
        |window: SurfaceId| placed.floats(window) == false,
        |window: SurfaceId| !state.floats(window),
    );
    assert(placed.sorted_out(windows, false) == tiled);
    filter_keeps_single(windows, |window: SurfaceId| !state.floats(window));
    let tiles = space::tiles_for(placed.layouts, area.size, tiled.len());
    let count = if tiled.len() < tiles.len() {
        tiled.len()
    } else {
        tiles.len()
    };
    tiles_settle(placed, tiled, area, tiles, count, at);
    tiles_stay_single(placed, tiled, area, tiles, count);
    let after = placed.tiles_laid_out(tiled, area, tiles, count);
    restacking_leaves(after, tiled[at], geometry::placed(area, tiles[at]));
    restacking_stays_single(after);
}

/// Every floating window on the screen keeps its place while the windows are laid out.
pub proof fn floating_windows_settle(
    state: State,
    windows: Seq<SurfaceId>,
    area: Rectangle,
    window: SurfaceId,
    location: Point,
)
    requires
        space::one_each(state.elements),
        windows.no_duplicates(),
        windows.contains(window),
        state.floats(window),
        !state.unmapped_marks.contains(window),
        state.stands(window, location),
    ensures
        state.windows_laid_out(windows, area).settled_in(
            window,
            Rectangle { loc: location, size: state.toplevel(window).geometry },
        ),
{
    let floating = state.sorted_out(windows, true);
    let place = Rectangle { loc: location, size: state.toplevel(window).geometry };
    sorted_out_is_filter(state, windows, true);
    filter_keeps_single(windows, |other: SurfaceId| state.floats(other) == true);
    assert(floating.contains(window));
    let at = choose|at: int| 0 <= at < floating.len() && floating[at] == window;
    floating_settles(state, floating, at, location);
    floating_keeps_rest(state, floating);
    let placed = state.floating_laid_out(floating);
    let tiled = placed.sorted_out(windows, false);
    sorted_out_is_filter(placed, windows, false);
    filter_keeps_single(windows, |other: SurfaceId| placed.floats(other) == false);
    let tiles = space::tiles_for(placed.layouts, area.size, tiled.len());
    let count = if tiled.len() < tiles.len() {
        tiled.len()
    } else {
        tiles.len()
    };
    assert forall|i: int| 0 <= i < count implies #[trigger] tiled[i] != window by {
        assert(tiled.contains(tiled[i]));
    }
    restacking_leaves(placed, window, place);
    tiles_leave(placed, tiled, area, tiles, count, window, place);
    tiles_stay_single(placed, tiled, area, tiles, count);
    restacking_leaves(placed.tiles_laid_out(tiled, area, tiles, count), window, place);
}

/// Raising windows puts them on top, in their order.
pub proof fn raising_each_tops(state: State, list: Seq<SurfaceId>)
    requires
        space::one_each(state.elements),
        list.no_duplicates(),
        forall|i: int|
            0 <= i < list.len() ==> space::stack(state.elements).contains(#[trigger] list[i]),
    ensures
        space::one_each(state.each_raised(list).elements),
        state.each_raised(list).elements.len() == state.elements.len(),
        list.len() <= state.elements.len(),
        forall|window: SurfaceId| #[trigger]
            space::stack(state.each_raised(list).elements).contains(window) <==> space::stack(
                state.elements,
            ).contains(window),
        forall|i: int|
            0 <= i < list.len() ==> #[trigger] state.each_raised(list).elements[state.elements.len()
                - list.len() + i].window == list[i],
    decreases list.len(),
{
    if list.len() > 0 {
        let rest = list.drop_last();
        let last = list.last();
        assert(list[list.len() - 1] == last);
        assert forall|i: int| 0 <= i < rest.len() implies space::stack(state.elements).contains(
            #[trigger] rest[i],
        ) by {
            assert(rest[i] == list[i]);
        }
        raising_each_tops(state, rest);
        let before = state.each_raised(rest).elements;
        let after = state.each_raised(list).elements;
        let n = state.elements.len() as int;
        assert(space::stack(before).contains(last));
        let k = choose|k: int| 0 <= k < before.len() && space::stack(before)[k] == last;
        assert(before[k].window == last);
        assert(k < n - rest.len()) by {
            if k >= n - rest.len() {
                let i = k - (n - rest.len());
                assert(before[n - rest.len() + i].window == rest[i]);
                assert(list[i] == list[list.len() - 1]);
            }
        }
        space::place_of_finds(before, last);
        let location = space::place_of(before, last).unwrap();
        lifting_removes(before, k);
        space::topped_keeps(before, last, location);
        assert(after == before.remove(k).push(Element { window: last, location }));
        assert forall|i: int| 0 <= i < list.len() implies #[trigger] after[n - list.len()
            + i].window == list[i] by {
            if i < rest.len() {
                assert(before[n - rest.len() + i].window == rest[i]);
                assert(after[n - list.len() + i] == before[n - rest.len() + i]);
            }
        }
    }
}

/// Restacking puts every floating window above every tiled one.
pub proof fn restacking_sorts(state: State, low: int, high: int)
    requires
        space::one_each(state.elements),
        state.owner_window(state.current as int) is None,
        0 <= low < high < state.restacked().elements.len(),
    ensures
        state.floats(state.restacked().elements[low].window) ==> state.floats(
            state.restacked().elements[high].window,
        ),
{
    let stack = space::stack(state.elements);
    let tiled = state.sorted_out(stack, false);
    let floating = state.sorted_out(stack, true);
    stack_is_single(state.elements);
    sorted_out_is_filter(state, stack, false);
    sorted_out_is_filter(state, stack, true);
    filter_keeps_single(stack, |window: SurfaceId| state.floats(window) == false);
    filter_keeps_single(stack, |window: SurfaceId| state.floats(window) == true);
    let after = state.restacked().elements;
    if stack.len() >= 2 && tiled.len() > 0 && floating.len() > 0 {
        assert forall|i: int| 0 <= i < tiled.len() implies stack.contains(#[trigger] tiled[i]) by {
            assert(tiled.contains(tiled[i]));
        }
        raising_each_tops(state, tiled);
        let middle = state.each_raised(tiled);
        assert forall|i: int| 0 <= i < floating.len() implies space::stack(
            middle.elements,
        ).contains(#[trigger] floating[i]) by {
            assert(floating.contains(floating[i]));
            assert(stack.contains(floating[i]));
        }
        raising_each_tops(middle, floating);
        let n = state.elements.len() as int;
        let edge = n - floating.len();
        if state.floats(after[low].window) {
            assert(space::stack(after)[low] == after[low].window);
            assert(space::stack(after).contains(after[low].window));
            assert(stack.contains(after[low].window));
            assert(floating.contains(after[low].window));
            let i = choose|i: int| 0 <= i < floating.len() && floating[i] == after[low].window;
            assert(after[edge + i].window == floating[i]);
            assert(edge + i == low);
            assert(after[edge + (high - edge)].window == floating[high - edge]);
            assert(floating.contains(floating[high - edge]));
        }
    } else if state.floats(after[low].window) {
        assert(space::stack(after)[high] == after[high].window);
        assert(stack.contains(after[high].window));
        assert(space::stack(after)[low] == after[low].window);
        assert(stack.contains(after[low].window));
        if !state.floats(after[high].window) {
            assert(tiled.contains(after[high].window));
            assert(floating.contains(after[low].window));
        }
    }
}

/// Showing windows puts those that were not on the screen above the others, in their order.
pub proof fn showing_stacks(state: State, list: Seq<SurfaceId>)
    requires
        space::one_each(state.elements),
        list.no_duplicates(),
    ensures
        space::one_each(state.all_shown(list).elements),
        state.all_shown(list) == (State {
            elements: state.all_shown(list).elements,
            assigned: state.all_shown(list).assigned,
            ..state
        }),
        space::stack(state.all_shown(list).elements) == space::stack(state.elements) + list.filter(
            |window: SurfaceId|
                !state.on_screen(window) && !state.unmapped_marks.contains(window)
                    && state.toplevel(window).has_buffer,
        ),
        forall|window: SurfaceId, location: Point|
            state.stands(window, location) ==> #[trigger] state.all_shown(list).stands(
                window,
                location,
            ),
    decreases list.len(),
{
    reveal(Seq::filter);
    let coming = |window: SurfaceId|
        !state.on_screen(window) && !state.unmapped_marks.contains(window) && state.toplevel(
            window,
        ).has_buffer;
    if list.len() > 0 {
        let rest = list.drop_last();
        let last = list.last();
        assert(list[list.len() - 1] == last);
        assert(rest.no_duplicates());
        showing_stacks(state, rest);
        let before = state.all_shown(rest);
        let after = state.all_shown(list);
        let more = rest.filter(coming);
        filters_agree(
            rest,
            |window: SurfaceId|
                !state.on_screen(window) && !state.unmapped_marks.contains(window)
                    && state.toplevel(window).has_buffer,
            coming,
        );
        filter_keeps_single(rest, coming);
        assert(!more.contains(last)) by {
            if rest.contains(last) {
                let k = choose|k: int| 0 <= k < rest.len() && rest[k] == last;
                assert(list[k] == list[list.len() - 1]);
            }
        }
        space::place_of_finds(before.elements, last);
        space::place_of_finds(state.elements, last);
        let stack = space::stack(state.elements);
        assert(before.on_screen(last) == state.on_screen(last)) by {
            if space::stack(before.elements).contains(last) {
                let k = choose|k: int|
                    0 <= k < (stack + more).len() && (stack + more)[k] == last;
                if k < stack.len() {
                    assert(stack[k] == last);
                } else {
                    assert(more[k - stack.len()] == last);
                }
            }
            if stack.contains(last) {
                let k = choose|k: int| 0 <= k < stack.len() && stack[k] == last;
                assert((stack + more)[k] == last);
            }
        }
        if coming(last) {
            let rect = before.initial_rect(last);
            mapping_settles(before, last, rect);
            lifting_nothing(before.elements, last);
            assert(after.elements == before.elements.push(
                Element { window: last, location: rect.loc },
            ));
            assert(space::stack(after.elements) =~= space::stack(before.elements).push(last));
            assert(list.filter(coming) == more.push(last));
            assert(space::stack(after.elements) =~= stack + list.filter(coming));
            assert forall|window: SurfaceId, location: Point|
                state.stands(window, location) implies #[trigger] after.stands(
                window,
                location,
            ) by {
                assert(before.stands(window, location));
                let element = Element { window, location };
                let k = choose|k: int|
                    0 <= k < before.elements.len() && before.elements[k] == element;
                assert(after.elements[k] == element);
            }
        } else {
            assert(list.filter(coming) == more);
        }
        filters_agree(
            list,
            |window: SurfaceId|
                !state.on_screen(window) && !state.unmapped_marks.contains(window)
                    && state.toplevel(window).has_buffer,
            coming,
        );
    } else {
        assert(space::stack(state.elements) + list =~= space::stack(state.elements));
    }
}

} // verus!
