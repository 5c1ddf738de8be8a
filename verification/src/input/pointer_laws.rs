//! Laws of the pointer: what lies in front is what it is at, and a button takes hold of the nearest
//! edges.

use crate::config::keybinds::ModifiersState;
use crate::geometry::{Point, Size};
use crate::input::layers;
use crate::input::layers::{LayerSight, Sights};
use crate::input::pointer;
use crate::input::pointer::{Button, Grab, WindowAtPointer, WindowHit};
use crate::state::raven::State;
use crate::state::settling;
use crate::state::toplevel::OutputId;
use vstd::prelude::*;

verus! {

/// Whether nothing of a layer is at the point.
pub open spec fn misses(list: Seq<LayerSight>) -> bool {
    forall|i: int|
        0 <= i < list.len() ==> (#[trigger] list[i]).place is None || (list[i].popup is None
            && list[i].hit is None)
}

proof fn missed_layer_is_not_under(
    output: OutputId,
    origin: Point,
    list: Seq<LayerSight>,
    popup: bool,
)
    requires
        misses(list),
    ensures
        pointer::layer_under(output, origin, list, popup) is None,
    decreases list.len(),
{
    if list.len() > 0 {
        let rest = list.drop_last();
        assert(list[list.len() - 1] == list.last());
        assert(misses(rest)) by {
            assert forall|i: int| 0 <= i < rest.len() implies (#[trigger] rest[i]).place is None || (
            rest[i].popup is None && rest[i].hit is None) by {
                assert(rest[i] == list[i]);
            }
        }
        missed_layer_is_not_under(output, origin, rest, popup);
    }
}

proof fn hit_layer_is_under(
    output: OutputId,
    origin: Point,
    list: Seq<LayerSight>,
    popup: bool,
    at: int,
)
    requires
        0 <= at < list.len(),
        list[at].place is Some,
        if popup {
            list[at].popup is Some
        } else {
            list[at].hit is Some
        },
    ensures
        pointer::layer_under(output, origin, list, popup) is Some,
        pointer::layer_under(output, origin, list, popup).unwrap().layer is Some,
        pointer::layer_under(output, origin, list, popup).unwrap().window is None,
        at == list.len() - 1 ==> pointer::layer_under(output, origin, list, popup).unwrap().layer
            == Some(list[at].surface),
        exists|i: int|
            at <= i < list.len() && pointer::layer_under(output, origin, list, popup).unwrap().layer
                == Some((#[trigger] list[i]).surface),
    decreases list.len(),
{
    let rest = list.drop_last();
    assert(list[list.len() - 1] == list.last());
    if pointer::layer_contents(output, origin, list.last(), popup) is None {
        assert(rest[at] == list[at]);
        hit_layer_is_under(output, origin, rest, popup, at);
        let i = choose|i: int|
            at <= i < rest.len() && pointer::layer_under(output, origin, rest, popup).unwrap().layer
                == Some((#[trigger] rest[i]).surface);
        assert(list[i] == rest[i]);
    }
}

/// What is at a point: a surface of the overlay before all else; then one of the top layer before the
/// windows, unless a window is fullscreen; then the window before the layers below; and nothing where
/// nothing is.
pub proof fn front_is_at_the_pointer(
    output: OutputId,
    origin: Point,
    fullscreen: bool,
    sights: Sights,
    window: Option<WindowHit>,
    at: int,
)
    ensures
        ({
            let contents = pointer::contents_at(output, origin, fullscreen, sights, window);
            &&& 0 <= at < sights.overlay.len() && sights.overlay[at].place is Some
                && sights.overlay[at].hit is Some ==> contents.layer is Some && contents.window
                is None
            &&& misses(sights.overlay) && !fullscreen && 0 <= at < sights.top.len()
                && sights.top[at].place is Some && sights.top[at].hit is Some ==> contents.layer
                is Some && contents.window is None
            &&& misses(sights.overlay) && (fullscreen || misses(sights.top)) && window is Some
                && window.unwrap().hit is Some ==> contents.window == Some(window.unwrap().window)
                && contents.layer is None
            &&& misses(sights.overlay) && misses(sights.top) && window is None && 0 <= at
                < sights.bottom.len() && sights.bottom[at].place is Some && sights.bottom[at].hit
                is Some ==> contents.layer is Some
            &&& misses(sights.overlay) && misses(sights.top) && misses(sights.bottom) && misses(
                sights.background,
            ) && window is None ==> contents.layer is None && contents.window is None
                && contents.surface is None
            &&& contents.output == Some(output)
        }),
{
    if misses(sights.overlay) {
        missed_layer_is_not_under(output, origin, sights.overlay, true);
        missed_layer_is_not_under(output, origin, sights.overlay, false);
    }
    if misses(sights.top) {
        missed_layer_is_not_under(output, origin, sights.top, true);
        missed_layer_is_not_under(output, origin, sights.top, false);
    }
    if misses(sights.bottom) {
        missed_layer_is_not_under(output, origin, sights.bottom, true);
        missed_layer_is_not_under(output, origin, sights.bottom, false);
    }
    if misses(sights.background) {
        missed_layer_is_not_under(output, origin, sights.background, true);
        missed_layer_is_not_under(output, origin, sights.background, false);
    }
    if 0 <= at < sights.overlay.len() && sights.overlay[at].place is Some && sights.overlay[at].hit
        is Some {
        hit_layer_is_under(output, origin, sights.overlay, false, at);
    }
    if 0 <= at < sights.top.len() && sights.top[at].place is Some && sights.top[at].hit is Some {
        hit_layer_is_under(output, origin, sights.top, false, at);
    }
    if 0 <= at < sights.bottom.len() && sights.bottom[at].place is Some && sights.bottom[at].hit
        is Some {
        hit_layer_is_under(output, origin, sights.bottom, false, at);
    }
    layers_are_on(output, origin, sights.overlay, true);
    layers_are_on(output, origin, sights.overlay, false);
    layers_are_on(output, origin, sights.top, true);
    layers_are_on(output, origin, sights.top, false);
    layers_are_on(output, origin, sights.bottom, true);
    layers_are_on(output, origin, sights.bottom, false);
    layers_are_on(output, origin, sights.background, true);
    layers_are_on(output, origin, sights.background, false);
}

proof fn layers_are_on(output: OutputId, origin: Point, list: Seq<LayerSight>, popup: bool)
    ensures
        pointer::layer_under(output, origin, list, popup) matches Some(contents)
            ==> contents.output == Some(output) && contents.layer is Some && contents.window is None,
    decreases list.len(),
{
    if list.len() > 0 {
        layers_are_on(output, origin, list.drop_last(), popup);
    }
}

/// A surface at the pointer has its place on the screen: that of a layer surface is the output's corner
/// moved by its place there and by the place within it, that of a window's surface is the window's moved
/// by the place within it.
pub proof fn places_add_up(
    output: OutputId,
    origin: Point,
    sight: LayerSight,
    window: WindowHit,
)
    ensures
        sight.place is Some && sight.hit is Some ==> pointer::layer_contents(
            output,
            origin,
            sight,
            false,
        ) is Some,
        sight.place is Some && sight.hit is Some && i32::MIN <= origin.x + sight.place.unwrap().x
            <= i32::MAX && i32::MIN <= origin.x + sight.place.unwrap().x
            + sight.hit.unwrap().local.x <= i32::MAX ==> pointer::layer_contents(
            output,
            origin,
            sight,
            false,
        ).unwrap().surface.unwrap().place.x == origin.x + sight.place.unwrap().x
            + sight.hit.unwrap().local.x,
        sight.place is Some && sight.hit is Some && i32::MIN <= origin.y + sight.place.unwrap().y
            <= i32::MAX && i32::MIN <= origin.y + sight.place.unwrap().y
            + sight.hit.unwrap().local.y <= i32::MAX ==> pointer::layer_contents(
            output,
            origin,
            sight,
            false,
        ).unwrap().surface.unwrap().place.y == origin.y + sight.place.unwrap().y
            + sight.hit.unwrap().local.y,
        window.hit is Some && i32::MIN <= window.render_location.x + window.hit.unwrap().local.x
            <= i32::MAX ==> pointer::window_contents(
            output,
            Some(window),
        ).unwrap().surface.unwrap().place.x == window.render_location.x
            + window.hit.unwrap().local.x,
        window.hit is Some && i32::MIN <= window.render_location.y + window.hit.unwrap().local.y
            <= i32::MAX ==> pointer::window_contents(
            output,
            Some(window),
        ).unwrap().surface.unwrap().place.y == window.render_location.y
            + window.hit.unwrap().local.y,
{
}

/// The edges that a button takes hold of are the nearest: the left one where it is nearer than the
/// right one, the upper one where it is nearer than the lower one.
pub proof fn nearest_edges_are_nearest(doubled_x: i64, doubled_y: i64, size: Size)
    requires
        size.w >= 1,
        size.h >= 1,
    ensures
        pointer::nearest_edges(doubled_x, doubled_y, size).left <==> doubled_x < 2 * size.w
            - doubled_x,
        pointer::nearest_edges(doubled_x, doubled_y, size).top <==> doubled_y < 2 * size.h
            - doubled_y,
{
}

/// With the main key held, the left button drags the window at the pointer from where it stands, and
/// the right button drags its edges; without it a button drags nothing, but for the right one with Alt.
pub proof fn buttons_take_hold(
    state: State,
    button: Button,
    modifiers: ModifiersState,
    at: WindowAtPointer,
    location: Point,
)
    requires
        state.orderly(),
        state.stands(at.window, location),
    ensures
        ({
            let main = state.settings.general.main_key.held(modifiers);
            let grab = state.grab_begun(button, true, modifiers, false, Some(at));
            &&& button == Button::Left && main ==> grab == (Grab::Move {
                window: at.window,
                from: location,
            })
            &&& button == Button::Right && (main || modifiers.alt) ==> grab is Resize
                && grab->Resize_window == at.window && grab->Resize_from.loc == at.render_location
                && grab->Resize_from.size == state.toplevel(at.window).geometry
            &&& button == Button::Left && !main ==> grab is Nothing
            &&& !main && !modifiers.alt ==> grab is Nothing
            &&& state.grab_begun(button, false, modifiers, false, Some(at)) is Nothing
            &&& state.grab_begun(button, true, modifiers, true, Some(at)) is Nothing
            &&& state.grab_begun(button, true, modifiers, false, None) is Nothing
        }),
{
    settling::standing_is_found(state.elements, at.window, location);
}

proof fn first_exclusive_is_first(list: Seq<LayerSight>, at: int)
    requires
        0 <= at < list.len(),
        list[at].exclusive,
        list[at].place is Some,
        forall|i: int|
            0 <= i < at ==> !((#[trigger] list[i]).exclusive && list[i].place is Some),
    ensures
        layers::first_exclusive(list) == Some(list[at].surface),
    decreases at,
{
    if at > 0 {
        let rest = list.skip(1);
        assert(!(list[0].exclusive && list[0].place is Some));
        assert(rest[at - 1] == list[at]);
        assert forall|i: int| 0 <= i < at - 1 implies !((#[trigger] rest[i]).exclusive
            && rest[i].place is Some) by {
            assert(rest[i] == list[i + 1]);
        }
        first_exclusive_is_first(rest, at - 1);
    }
}

proof fn none_is_exclusive(list: Seq<LayerSight>)
    requires
        forall|i: int|
            0 <= i < list.len() ==> !((#[trigger] list[i]).exclusive && list[i].place is Some),
    ensures
        layers::first_exclusive(list) is None,
    decreases list.len(),
{
    if list.len() > 0 {
        let rest = list.skip(1);
        assert(!(list[0].exclusive && list[0].place is Some));
        assert forall|i: int| 0 <= i < rest.len() implies !((#[trigger] rest[i]).exclusive
            && rest[i].place is Some) by {
            assert(rest[i] == list[i + 1]);
        }
        none_is_exclusive(rest);
    }
}

/// The first surface of the overlay that is shown and takes the keyboard for itself has it, or else the
/// first such one of the top layer.
pub proof fn exclusive_layer_takes_keyboard(sights: Sights, at: int)
    ensures
        0 <= at < sights.overlay.len() && sights.overlay[at].exclusive
            && sights.overlay[at].place is Some && (forall|i: int|
            0 <= i < at ==> !((#[trigger] sights.overlay[i]).exclusive
                && sights.overlay[i].place is Some)) ==> layers::exclusive_layer(sights) == Some(
            sights.overlay[at].surface,
        ),
        0 <= at < sights.top.len() && sights.top[at].exclusive && sights.top[at].place is Some && (
        forall|i: int|
            0 <= i < at ==> !((#[trigger] sights.top[i]).exclusive && sights.top[i].place is Some))
            && (forall|i: int|
            0 <= i < sights.overlay.len() ==> !((#[trigger] sights.overlay[i]).exclusive
                && sights.overlay[i].place is Some)) ==> layers::exclusive_layer(sights) == Some(
            sights.top[at].surface,
        ),
{
    if 0 <= at < sights.overlay.len() && sights.overlay[at].exclusive && sights.overlay[at].place
        is Some && (forall|i: int|
        0 <= i < at ==> !((#[trigger] sights.overlay[i]).exclusive && sights.overlay[i].place
            is Some)) {
        first_exclusive_is_first(sights.overlay, at);
    }
    if forall|i: int|
        0 <= i < sights.overlay.len() ==> !((#[trigger] sights.overlay[i]).exclusive
            && sights.overlay[i].place is Some) {
        none_is_exclusive(sights.overlay);
    }
    if 0 <= at < sights.top.len() && sights.top[at].exclusive && sights.top[at].place is Some && (
    forall|i: int|
        0 <= i < at ==> !((#[trigger] sights.top[i]).exclusive && sights.top[i].place is Some)) {
        first_exclusive_is_first(sights.top, at);
    }
}

proof fn topmost_is_under(list: Seq<LayerSight>, at: int)
    requires
        -1 <= at < list.len(),
        at >= 0 ==> list[at].under,
        forall|i: int| at < i < list.len() ==> !(#[trigger] list[i]).under,
    ensures
        layers::under_point(list) == if at >= 0 {
            Some(list[at])
        } else {
            None
        },
    decreases list.len(),
{
    if list.len() > 0 && at < list.len() - 1 {
        let rest = list.drop_last();
        assert(!list[list.len() - 1].under);
        assert forall|i: int| at < i < rest.len() implies !(#[trigger] rest[i]).under by {
            assert(rest[i] == list[i]);
        }
        topmost_is_under(rest, at);
    }
}

/// The keyboard goes to the topmost layer surface at the pointer, where that takes it and is really met;
/// where that does not, it goes to none below it either.
pub proof fn topmost_layer_is_asked(first: Seq<LayerSight>, second: Seq<LayerSight>, at: int)
    requires
        0 <= at < first.len(),
        first[at].under,
        forall|i: int| at < i < first.len() ==> !(#[trigger] first[i]).under,
    ensures
        first[at].can_receive_focus && first[at].place is Some && first[at].hit is Some
            ==> layers::focus_under_point(first, second) == Some(first[at].surface),
        !first[at].can_receive_focus ==> layers::focus_under_point(first, second) is None,
        first[at].hit is None && first[at].popup is None ==> layers::focus_under_point(
            first,
            second,
        ) is None,
{
    topmost_is_under(first, at);
}

/// The second layer is asked where the first has nothing at the pointer.
pub proof fn second_layer_is_asked(first: Seq<LayerSight>, second: Seq<LayerSight>, at: int)
    requires
        0 <= at < second.len(),
        second[at].under,
        forall|i: int| at < i < second.len() ==> !(#[trigger] second[i]).under,
        forall|i: int| 0 <= i < first.len() ==> !(#[trigger] first[i]).under,
        second[at].can_receive_focus,
        second[at].place is Some,
        second[at].hit is Some,
    ensures
        layers::focus_under_point(first, second) == Some(second[at].surface),
{
    topmost_is_under(first, -1);
    topmost_is_under(second, at);
}

} // verus!
