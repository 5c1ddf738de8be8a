//! The screen: the outputs, and the windows that are on it, from the bottom to the top.

use crate::geometry::{Point, Rectangle, WindowGeometry, Size};
use crate::state::lists::SurfaceId;
use crate::state::toplevel::OutputId;
use vstd::prelude::*;

verus! {

/// An output, and what layer surfaces leave of it.
#[derive(Clone, Copy, Debug, PartialEq, Eq, Structural)]
pub struct Output {
    pub id: OutputId,
    pub geometry: Option<Rectangle>,
    pub work_area: Rectangle,
}

/// A window on the screen.
#[derive(Clone, Copy, Debug, PartialEq, Eq, Structural)]
pub struct Element {
    pub window: SurfaceId,
    pub location: Point,
}

/// The place of the first element of `window`.
pub open spec fn place_of(elements: Seq<Element>, window: SurfaceId) -> Option<Point>
    decreases elements.len(),
{
    if elements.len() == 0 {
        None
    } else if elements[0].window == window {
        Some(elements[0].location)
    } else {
        place_of(elements.skip(1), window)
    }
}

/// The elements without those of `window`.
pub open spec fn lifted(elements: Seq<Element>, window: SurfaceId) -> Seq<Element>
    decreases elements.len(),
{
    if elements.len() == 0 {
        elements
    } else if elements.last().window == window {
        lifted(elements.drop_last(), window)
    } else {
        lifted(elements.drop_last(), window).push(elements.last())
    }
}

/// The elements with `window` on top, at `location`.
pub open spec fn topped(elements: Seq<Element>, window: SurfaceId, location: Point) -> Seq<Element> {
    lifted(elements, window).push(Element { window, location })
}

/// The elements with `window` on top, where it is on the screen.
pub open spec fn raised(elements: Seq<Element>, window: SurfaceId) -> Seq<Element> {
    match place_of(elements, window) {
        Some(location) => topped(elements, window, location),
        None => elements,
    }
}

/// The windows on the screen, from the bottom to the top.
pub open spec fn stack(elements: Seq<Element>) -> Seq<SurfaceId> {
    Seq::new(elements.len(), |i: int| elements[i].window)
}

/// Whether no window is on the screen twice.
pub open spec fn one_each(elements: Seq<Element>) -> bool {
    forall|i: int, j: int|
        0 <= i < j < elements.len() ==> elements[i].window != elements[j].window
}

/// What `place_of` finds.
pub proof fn place_of_finds(elements: Seq<Element>, window: SurfaceId)
    ensures
        place_of(elements, window) is Some <==> stack(elements).contains(window),
        forall|i: int|
            0 <= i < elements.len() && one_each(elements) && (#[trigger] elements[i]).window
                == window ==> place_of(elements, window) == Some(elements[i].location),
    decreases elements.len(),
{
    if elements.len() > 0 {
        let rest = elements.skip(1);
        place_of_finds(rest, window);
        if elements[0].window == window {
            assert(stack(elements)[0] == window);
        } else {
            if stack(rest).contains(window) {
                let i = choose|i: int| 0 <= i < stack(rest).len() && stack(rest)[i] == window;
                assert(stack(elements)[i + 1] == window);
            }
            if stack(elements).contains(window) {
                let i = choose|i: int|
                    0 <= i < stack(elements).len() && stack(elements)[i] == window;
                assert(stack(rest)[i - 1] == window);
            }
            assert forall|i: int|
                0 <= i < elements.len() && one_each(elements) && (#[trigger] elements[i]).window
                    == window implies place_of(elements, window) == Some(
                elements[i].location,
            ) by {
                assert(rest[i - 1] == elements[i]);
                assert(one_each(rest));
            }
        }
    }
}

/// What `lifted` leaves.
pub proof fn lifted_leaves(elements: Seq<Element>, window: SurfaceId)
    ensures
        forall|other: SurfaceId| #[trigger]
            stack(lifted(elements, window)).contains(other) <==> stack(elements).contains(other)
                && other != window,
        one_each(elements) ==> one_each(lifted(elements, window)),
        forall|i: int|
            0 <= i < lifted(elements, window).len() ==> elements.contains(
                #[trigger] lifted(elements, window)[i],
            ),
    decreases elements.len(),
{
    if elements.len() > 0 {
        let rest = elements.drop_last();
        lifted_leaves(rest, window);
        let inner = lifted(rest, window);
        let all = lifted(elements, window);
        assert forall|i: int| 0 <= i < all.len() implies elements.contains(#[trigger] all[i]) by {
            if i < inner.len() {
                assert(rest.contains(inner[i]));
                let k = choose|k: int| 0 <= k < rest.len() && rest[k] == inner[i];
                assert(elements[k] == inner[i]);
            } else {
                assert(elements[elements.len() - 1] == all[i]);
            }
        }
        assert forall|other: SurfaceId| #[trigger]
            stack(all).contains(other) <==> stack(elements).contains(other) && other
                != window by {
            if stack(all).contains(other) {
                let i = choose|i: int| 0 <= i < stack(all).len() && stack(all)[i] == other;
                if i < inner.len() {
                    assert(stack(inner)[i] == other);
                    assert(stack(inner).contains(other));
                    assert(stack(rest).contains(other));
                    let k = choose|k: int| 0 <= k < stack(rest).len() && stack(rest)[k] == other;
                    assert(stack(elements)[k] == other);
                } else {
                    assert(stack(elements)[elements.len() - 1] == other);
                }
            }
            if stack(elements).contains(other) && other != window {
                let i = choose|i: int|
                    0 <= i < stack(elements).len() && stack(elements)[i] == other;
                if i < rest.len() {
                    assert(stack(rest)[i] == other);
                    assert(stack(inner).contains(other));
                    let k = choose|k: int| 0 <= k < stack(inner).len() && stack(inner)[k] == other;
                    assert(stack(all)[k] == other);
                } else {
                    assert(stack(all)[all.len() - 1] == other);
                }
            }
        }
        if one_each(elements) {
            assert(one_each(rest)) by {
                assert forall|i: int, j: int| 0 <= i < j < rest.len() implies rest[i].window
                    != rest[j].window by {
                    assert(rest[i] == elements[i] && rest[j] == elements[j]);
                }
            }
            assert forall|i: int, j: int| 0 <= i < j < all.len() implies all[i].window
                != all[j].window by {
                if j < inner.len() {
                    assert(all[i] == inner[i] && all[j] == inner[j]);
                } else {
                    assert(rest.contains(inner[i]));
                    let k = choose|k: int| 0 <= k < rest.len() && rest[k] == inner[i];
                    assert(elements[k] == inner[i]);
                    assert(all[j] == elements[elements.len() - 1]);
                }
            }
        }
    }
}

/// Putting a window on top puts it on the screen and leaves the other windows there.
pub proof fn topped_keeps(elements: Seq<Element>, window: SurfaceId, location: Point)
    ensures
        one_each(elements) ==> one_each(topped(elements, window, location)),
        forall|other: SurfaceId| #[trigger]
            stack(topped(elements, window, location)).contains(other) <==> stack(
                elements,
            ).contains(other) || other == window,
        stack(topped(elements, window, location)).last() == window,
        one_each(elements) ==> place_of(topped(elements, window, location), window) == Some(
            location,
        ),
{
    lifted_leaves(elements, window);
    let under = lifted(elements, window);
    let all = topped(elements, window, location);
    assert forall|i: int| 0 <= i < under.len() implies under[i].window != window by {
        assert(stack(under)[i] == under[i].window);
        assert(stack(under).contains(under[i].window));
    }
    assert forall|other: SurfaceId| #[trigger]
        stack(all).contains(other) <==> stack(elements).contains(other) || other == window by {
        if other == window {
            assert(stack(all)[all.len() - 1] == window);
        } else {
            if stack(all).contains(other) {
                let i = choose|i: int| 0 <= i < stack(all).len() && stack(all)[i] == other;
                assert(stack(under)[i] == other);
                assert(stack(under).contains(other));
            }
            if stack(elements).contains(other) {
                assert(stack(under).contains(other));
                let i = choose|i: int| 0 <= i < stack(under).len() && stack(under)[i] == other;
                assert(stack(all)[i] == other);
            }
        }
    }
    if one_each(elements) {
        assert forall|i: int, j: int| 0 <= i < j < all.len() implies all[i].window
            != all[j].window by {
            if j < under.len() {
                assert(all[i] == under[i] && all[j] == under[j]);
            }
        }
        place_of_finds(all, window);
        assert(all[all.len() - 1].window == window);
    }
}

/// The place of `window`, where it is on the screen.
pub fn element_location(elements: &Vec<Element>, window: SurfaceId) -> (place: Option<Point>)
    ensures
        place == place_of(elements@, window),
{
    let mut index: usize = 0;
    assert(elements@.skip(0) =~= elements@);
    while index < elements.len()
        invariant
            index <= elements.len(),
            place_of(elements@.skip(index as int), window) == place_of(elements@, window),
        decreases elements.len() - index,
    {
        assert(elements@.skip(index as int).skip(1) =~= elements@.skip(index + 1));
        if elements[index].window == window {
            return Some(elements[index].location);
        }
        index = index + 1;
    }
    None
}

/// Takes `window` off the screen.
pub fn unmap_elem(elements: &mut Vec<Element>, window: SurfaceId)
    ensures
        final(elements)@ == lifted(old(elements)@, window),
{
    let mut kept: Vec<Element> = Vec::new();
    let ghost all = elements@;
    let mut index: usize = 0;
    assert(all.take(0) =~= seq![]);
    while index < elements.len()
        invariant
            index <= elements.len(),
            all == elements@,
            kept@ == lifted(all.take(index as int), window),
        decreases elements.len() - index,
    {
        assert(all.take(index + 1).drop_last() =~= all.take(index as int));
        if elements[index].window != window {
            kept.push(elements[index]);
        }
        index = index + 1;
    }
    assert(all.take(all.len() as int) =~= all);
    *elements = kept;
}

/// Puts `window` on the screen, on top, at `location`.
pub fn map_element(elements: &mut Vec<Element>, window: SurfaceId, location: Point)
    ensures
        final(elements)@ == topped(old(elements)@, window, location),
{
    unmap_elem(elements, window);
    elements.push(Element { window, location });
}

/// Puts `window` on top, where it is on the screen.
pub fn raise_element(elements: &mut Vec<Element>, window: SurfaceId)
    ensures
        final(elements)@ == raised(old(elements)@, window),
{
    if let Some(location) = element_location(elements, window) {
        map_element(elements, window, location);
    }
}

/// The output with this number.
pub open spec fn output_of(outputs: Seq<Output>, id: OutputId) -> Option<Output>
    decreases outputs.len(),
{
    if outputs.len() == 0 {
        None
    } else if outputs[0].id == id {
        Some(outputs[0])
    } else {
        output_of(outputs.skip(1), id)
    }
}

/// The output with this number.
pub fn find_output(outputs: &Vec<Output>, id: OutputId) -> (output: Option<Output>)
    ensures
        output == output_of(outputs@, id),
{
    let mut index: usize = 0;
    assert(outputs@.skip(0) =~= outputs@);
    while index < outputs.len()
        invariant
            index <= outputs.len(),
            output_of(outputs@.skip(index as int), id) == output_of(outputs@, id),
        decreases outputs.len() - index,
    {
        assert(outputs@.skip(index as int).skip(1) =~= outputs@.skip(index + 1));
        if outputs[index].id == id {
            return Some(outputs[index]);
        }
        index = index + 1;
    }
    None
}

/// The geometry of the output with this number.
pub open spec fn geometry_of(outputs: Seq<Output>, id: OutputId) -> Option<Rectangle> {
    match output_of(outputs, id) {
        Some(output) => output.geometry,
        None => None,
    }
}

/// The geometry of the output with this number.
pub fn output_geometry(outputs: &Vec<Output>, id: OutputId) -> (geometry: Option<Rectangle>)
    ensures
        geometry == geometry_of(outputs@, id),
{
    match find_output(outputs, id) {
        Some(output) => output.geometry,
        None => None,
    }
}

/// The layout of a number of windows in an area of some size.
#[derive(Debug)]
pub struct Arrangement {
    pub area: Size,
    pub windows: usize,
    pub tiles: Vec<WindowGeometry>,
}

/// An `Arrangement` as plain values.
pub type Layout = (Size, usize, Seq<WindowGeometry>);

/// A list of layouts as plain values.
pub open spec fn layouts(list: Seq<Arrangement>) -> Seq<Layout> {
    Seq::new(list.len(), |i: int| (list[i].area, list[i].windows, list[i].tiles@))
}

/// The tiles of this many windows in an area of this size; none where the layout is not known.
pub open spec fn tiles_for(list: Seq<Layout>, area: Size, windows: nat) -> Seq<WindowGeometry>
    decreases list.len(),
{
    if list.len() == 0 {
        seq![]
    } else if list[0].0 == area && list[0].1 == windows {
        list[0].2
    } else {
        tiles_for(list.skip(1), area, windows)
    }
}

/// The tiles of this many windows in an area of this size; none where the layout is not known.
pub fn arrange(list: &Vec<Arrangement>, area: Size, windows: usize) -> (tiles: Vec<WindowGeometry>)
    ensures
        tiles@ == tiles_for(layouts(list@), area, windows as nat),
{
    let ghost all = layouts(list@);
    let mut index: usize = 0;
    assert(all.skip(0) =~= all);
    while index < list.len()
        invariant
            index <= list.len(),
            all == layouts(list@),
            tiles_for(all.skip(index as int), area, windows as nat) == tiles_for(
                all,
                area,
                windows as nat,
            ),
        decreases list.len() - index,
    {
        assert(all.skip(index as int).skip(1) =~= all.skip(index + 1));
        if list[index].area == area && list[index].windows == windows {
            let mut tiles: Vec<WindowGeometry> = Vec::new();
            let mut at: usize = 0;
            while at < list[index].tiles.len()
                invariant
                    index < list.len(),
                    at <= list[index as int].tiles.len(),
                    tiles@ == list[index as int].tiles@.take(at as int),
                decreases list[index as int].tiles.len() - at,
            {
                tiles.push(list[index].tiles[at]);
                at = at + 1;
                assert(tiles@ =~= list[index as int].tiles@.take(at as int));
            }
            assert(tiles@ =~= list[index as int].tiles@);
            return tiles;
        }
        index = index + 1;
    }
    Vec::new()
}

} // verus!
