//! What is known of the layer surfaces of an output, and which of them gets the keyboard.

use crate::geometry::Point;
use crate::state::lists::SurfaceId;
use vstd::prelude::*;

verus! {

/// A surface at a point, and the place of the surface within what it belongs to.
#[derive(Clone, Copy, Debug, PartialEq, Eq, Structural)]
pub struct SurfaceHit {
    pub surface: SurfaceId,
    pub local: Point,
}

/// A layer surface, and what of it is at a point.
#[derive(Clone, Copy, Debug, PartialEq, Eq, Structural)]
pub struct LayerSight {
    pub surface: SurfaceId,
    /// Its place on the output, where it has one.
    pub place: Option<Point>,
    /// Whether it takes the keyboard at all.
    pub can_receive_focus: bool,
    /// Whether it takes the keyboard for itself.
    pub exclusive: bool,
    /// Whether it takes the keyboard when the user turns to it.
    pub on_demand: bool,
    /// Whether the point is within its bounds.
    pub under: bool,
    /// What of its popups is at the point.
    pub popup: Option<SurfaceHit>,
    /// What of itself is at the point.
    pub hit: Option<SurfaceHit>,
}

/// The layer surfaces of an output, each layer from the bottom to the top.
#[derive(Debug)]
pub struct LayerSights {
    pub overlay: Vec<LayerSight>,
    pub top: Vec<LayerSight>,
    pub bottom: Vec<LayerSight>,
    pub background: Vec<LayerSight>,
}

/// A `LayerSights` as plain values.
pub struct Sights {
    pub overlay: Seq<LayerSight>,
    pub top: Seq<LayerSight>,
    pub bottom: Seq<LayerSight>,
    pub background: Seq<LayerSight>,
}

impl View for LayerSights {
    type V = Sights;

    open spec fn view(&self) -> Sights {
        Sights {
            overlay: self.overlay@,
            top: self.top@,
            bottom: self.bottom@,
            background: self.background@,
        }
    }
}

/// The first layer surface that takes the keyboard for itself.
pub open spec fn first_exclusive(list: Seq<LayerSight>) -> Option<SurfaceId>
    decreases list.len(),
{
    if list.len() == 0 {
        None
    } else if list[0].exclusive && list[0].place is Some {
        Some(list[0].surface)
    } else {
        first_exclusive(list.skip(1))
    }
}

/// The layer surface that takes the keyboard for itself: one of the overlay, or else of the top
/// layer.
pub open spec fn exclusive_layer(sights: Sights) -> Option<SurfaceId> {
    match first_exclusive(sights.overlay) {
        Some(surface) => Some(surface),
        None => first_exclusive(sights.top),
    }
}

/// The topmost layer surface whose bounds hold the point.
pub open spec fn under_point(list: Seq<LayerSight>) -> Option<LayerSight>
    decreases list.len(),
{
    if list.len() == 0 {
        None
    } else if list.last().under {
        Some(list.last())
    } else {
        under_point(list.drop_last())
    }
}

/// The topmost layer surface of the first layer that has one, or else of the second.
pub open spec fn under_point_of(first: Seq<LayerSight>, second: Seq<LayerSight>) -> Option<
    LayerSight,
> {
    match under_point(first) {
        Some(sight) => Some(sight),
        None => under_point(second),
    }
}

/// The layer surface at the point, where it takes the keyboard.
pub open spec fn focus_under_point(first: Seq<LayerSight>, second: Seq<LayerSight>) -> Option<
    SurfaceId,
> {
    match under_point_of(first, second) {
        Some(sight) => if sight.can_receive_focus && sight.place is Some && (sight.hit is Some
            || sight.popup is Some) {
            Some(sight.surface)
        } else {
            None
        },
        None => None,
    }
}

/// Whether a surface is a layer surface of the list that is shown and takes the keyboard.
pub open spec fn keeps_focus(list: Seq<LayerSight>, surface: SurfaceId) -> bool {
    exists|i: int|
        0 <= i < list.len() && (#[trigger] list[i]).surface == surface && list[i].can_receive_focus
            && list[i].place is Some
}

fn find_exclusive(list: &Vec<LayerSight>) -> (surface: Option<SurfaceId>)
    ensures
        surface == first_exclusive(list@),
{
    let mut index: usize = 0;
    assert(list@.skip(0) =~= list@);
    while index < list.len()
        invariant
            index <= list.len(),
            first_exclusive(list@) == first_exclusive(list@.skip(index as int)),
        decreases list.len() - index,
    {
        assert(list@.skip(index as int).skip(1) =~= list@.skip(index + 1));
        assert(list@.skip(index as int)[0] == list@[index as int]);
        if list[index].exclusive && list[index].place.is_some() {
            return Some(list[index].surface);
        }
        index = index + 1;
    }
    None
}

fn find_under(list: &Vec<LayerSight>) -> (sight: Option<LayerSight>)
    ensures
        sight == under_point(list@),
{
    let mut rest: usize = list.len();
    assert(list@.take(rest as int) =~= list@);
    while rest > 0
        invariant
            rest <= list.len(),
            under_point(list@) == under_point(list@.take(rest as int)),
        decreases rest,
    {
        assert(list@.take(rest as int).drop_last() =~= list@.take(rest - 1));
        if list[rest - 1].under {
            return Some(list[rest - 1]);
        }
        rest = rest - 1;
    }
    None
}

/// The layer surface at the point, where it takes the keyboard.
pub fn find_focus_under(first: &Vec<LayerSight>, second: &Vec<LayerSight>) -> (surface: Option<
    SurfaceId,
>)
    ensures
        surface == focus_under_point(first@, second@),
{
    let sight = match find_under(first) {
        Some(sight) => Some(sight),
        None => find_under(second),
    };
    match sight {
        Some(sight) => if sight.can_receive_focus && sight.place.is_some() && (sight.hit.is_some()
            || sight.popup.is_some()) {
            Some(sight.surface)
        } else {
            None
        },
        None => None,
    }
}

/// Whether a surface is a layer surface of the list that is shown and takes the keyboard.
pub fn holds_focus(list: &Vec<LayerSight>, surface: SurfaceId) -> (result: bool)
    ensures
        result == keeps_focus(list@, surface),
{
    let mut index: usize = 0;
    while index < list.len()
        invariant
            index <= list.len(),
            forall|i: int|
                0 <= i < index ==> !((#[trigger] list@[i]).surface == surface
                    && list@[i].can_receive_focus && list@[i].place is Some),
        decreases list.len() - index,
    {
        if list[index].surface == surface && list[index].can_receive_focus
            && list[index].place.is_some() {
            assert(list@[index as int].surface == surface);
            return true;
        }
        index = index + 1;
    }
    false
}

impl LayerSights {
    /// No layer surface at all.
    pub fn new() -> (sights: LayerSights)
        ensures
            sights@ == (Sights {
                overlay: seq![],
                top: seq![],
                bottom: seq![],
                background: seq![],
            }),
    {
        LayerSights {
            overlay: Vec::new(),
            top: Vec::new(),
            bottom: Vec::new(),
            background: Vec::new(),
        }
    }

    /// The layer surface that takes the keyboard for itself.
    pub fn exclusive_surface(&self) -> (surface: Option<SurfaceId>)
        ensures
            surface == exclusive_layer(self@),
    {
        match find_exclusive(&self.overlay) {
            Some(surface) => Some(surface),
            None => find_exclusive(&self.top),
        }
    }
}

} // verus!
