//! Points, sizes and rectangles in logical pixels.

use vstd::prelude::*;

verus! {

/// A place.
#[derive(Clone, Copy, Debug, PartialEq, Eq, Structural)]
pub struct Point {
    pub x: i32,
    pub y: i32,
}

/// A width and a height.
#[derive(Clone, Copy, Debug, PartialEq, Eq, Structural)]
pub struct Size {
    pub w: i32,
    pub h: i32,
}

/// A place and a size.
#[derive(Clone, Copy, Debug, PartialEq, Eq, Structural)]
pub struct Rectangle {
    pub loc: Point,
    pub size: Size,
}

/// Where a layout puts a window, relative to the area that it arranges.
#[derive(Clone, Copy, Debug, PartialEq, Eq, Structural)]
pub struct WindowGeometry {
    pub x_coordinate: i32,
    pub y_coordinate: i32,
    pub width: u32,
    pub height: u32,
}

impl Size {
    /// Whether there is room in both directions.
    pub open spec fn roomy(self) -> bool {
        self.w > 0 && self.h > 0
    }

    /// Whether there is room in both directions.
    pub fn has_room(self) -> (result: bool)
        ensures
            result == self.roomy(),
    {
        self.w > 0 && self.h > 0
    }

    /// Whether each side differs by at most one.
    pub open spec fn close_to(self, other: Size) -> bool {
        -1 <= self.w - other.w <= 1 && -1 <= self.h - other.h <= 1
    }

    /// Whether each side differs by at most one.
    pub fn sizes_match_target(self, target: Size) -> (result: bool)
        ensures
            result == self.close_to(target),
    {
        let wide: i64 = self.w as i64 - target.w as i64;
        let high: i64 = self.h as i64 - target.h as i64;
        -1 <= wide && wide <= 1 && -1 <= high && high <= 1
    }
}

/// The sum, where it is a number of this type; else it wraps round.
pub open spec fn moved(start: i32, by: i32) -> i32 {
    start.wrapping_add(by)
}

/// The place of a layout's window on the screen, with the area at `area`.
pub open spec fn placed(area: Rectangle, tile: WindowGeometry) -> Rectangle {
    Rectangle {
        loc: Point {
            x: moved(area.loc.x, tile.x_coordinate),
            y: moved(area.loc.y, tile.y_coordinate),
        },
        size: Size { w: tile.width as i32, h: tile.height as i32 },
    }
}

/// The place of a layout's window on the screen, with the area at `area`.
pub fn place_tile(area: Rectangle, tile: WindowGeometry) -> (rect: Rectangle)
    ensures
        rect == placed(area, tile),
{
    Rectangle {
        loc: Point {
            x: area.loc.x.wrapping_add(tile.x_coordinate),
            y: area.loc.y.wrapping_add(tile.y_coordinate),
        },
        size: Size { w: tile.width as i32, h: tile.height as i32 },
    }
}

/// The work area where it has room, else the whole output.
pub open spec fn usable(work_area: Rectangle, output: Rectangle) -> Rectangle {
    if work_area.size.roomy() {
        work_area
    } else {
        output
    }
}

/// The work area where it has room, else the whole output.
pub fn usable_area(work_area: Rectangle, output: Rectangle) -> (area: Rectangle)
    ensures
        area == usable(work_area, output),
{
    if work_area.size.has_room() {
        work_area
    } else {
        output
    }
}

/// Half of what is left of `whole` beside `part`, rounded towards zero.
pub open spec fn half_gap(whole: int, part: int) -> int {
    if whole >= part {
        (whole - part) / 2
    } else {
        -((part - whole) / 2)
    }
}

/// `value`, brought between `low` and `high`.
pub open spec fn between(value: int, low: int, high: int) -> int {
    if value < low {
        low
    } else if value > high {
        high
    } else {
        value
    }
}

/// Where a window of this size stands in the middle of an area; the window counts as no larger
/// than the area.
pub open spec fn centered(area: Rectangle, window: Size) -> Point {
    Point {
        x: moved(
            area.loc.x,
            half_gap(area.size.w as int, between(window.w as int, 1, area.size.w as int)) as i32,
        ),
        y: moved(
            area.loc.y,
            half_gap(area.size.h as int, between(window.h as int, 1, area.size.h as int)) as i32,
        ),
    }
}

fn center_offset(whole: i32, part: i32) -> (offset: i32)
    requires
        whole >= 1,
    ensures
        offset == half_gap(whole as int, between(part as int, 1, whole as int)),
        0 <= offset < whole,
{
    let inner: i32 = if part < 1 {
        1
    } else if part > whole {
        whole
    } else {
        part
    };
    (whole - inner) / 2
}

/// Where a window of this size stands in the middle of an area with room.
pub fn center_in(area: Rectangle, window: Size) -> (point: Point)
    requires
        area.size.roomy(),
    ensures
        point == centered(area, window),
{
    Point {
        x: area.loc.x.wrapping_add(center_offset(area.size.w, window.w)),
        y: area.loc.y.wrapping_add(center_offset(area.size.h, window.h)),
    }
}

/// A centred window stands within its area, as long as the area lies within the coordinates.
pub proof fn centered_window_is_inside(area: Rectangle, window: Size)
    requires
        area.size.roomy(),
        area.loc.x + area.size.w <= i32::MAX,
        area.loc.y + area.size.h <= i32::MAX,
    ensures
        area.loc.x <= centered(area, window).x,
        centered(area, window).x + between(window.w as int, 1, area.size.w as int) <= area.loc.x
            + area.size.w,
        area.loc.y <= centered(area, window).y,
        centered(area, window).y + between(window.h as int, 1, area.size.h as int) <= area.loc.y
            + area.size.h,
{
}

/// A centred window has as much room on its left as on its right, and above as below, but for one
/// pixel.
pub proof fn centered_window_is_in_the_middle(area: Rectangle, window: Size)
    requires
        area.size.roomy(),
        area.loc.x + area.size.w <= i32::MAX,
        area.loc.y + area.size.h <= i32::MAX,
        1 <= window.w <= area.size.w,
        1 <= window.h <= area.size.h,
    ensures
        ({
            let left = centered(area, window).x - area.loc.x;
            let right = area.loc.x + area.size.w - (centered(area, window).x + window.w);
            let above = centered(area, window).y - area.loc.y;
            let below = area.loc.y + area.size.h - (centered(area, window).y + window.h);
            &&& left <= right <= left + 1
            &&& above <= below <= above + 1
        }),
{
}

/// Two sizes are taken for the same where no side differs by more than a pixel, whichever of them is asked
/// first.
pub proof fn sizes_match_within_a_pixel(one: Size, other: Size)
    ensures
        one.close_to(one),
        one.close_to(other) == other.close_to(one),
        one.close_to(other) ==> one.w <= other.w + 1 && one.h <= other.h + 1,
        one.w > other.w + 1 || one.h > other.h + 1 ==> !one.close_to(other),
        one.w == other.w && one.h == other.h + 1 ==> one.close_to(other),
        one.h == other.h && one.w == other.w + 1 ==> one.close_to(other),
{
}

} // verus!
