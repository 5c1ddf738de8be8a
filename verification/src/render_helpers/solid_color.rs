//! A plane of one colour, such as the backdrop behind all windows. It counts its changes, so that only
//! what changed is drawn anew.

use crate::geometry::Size;
use crate::render_helpers::bits;
use crate::render_helpers::bits::{same_double, same_single, whole_double};
use vstd::prelude::*;

verus! {

/// A colour: the bits of its four levels in single precision, from red to alpha.
#[derive(Clone, Copy, Debug, PartialEq, Eq, Structural)]
pub struct Color {
    pub red: u32,
    pub green: u32,
    pub blue: u32,
    pub alpha: u32,
}

impl Color {
    /// Whether two colours have equal levels.
    pub open spec fn like(self, other: Color) -> bool {
        &&& bits::equal_singles(self.red, other.red)
        &&& bits::equal_singles(self.green, other.green)
        &&& bits::equal_singles(self.blue, other.blue)
        &&& bits::equal_singles(self.alpha, other.alpha)
    }

    /// Whether two colours have equal levels.
    pub fn is_like(self, other: Color) -> (like: bool)
        ensures
            like == self.like(other),
    {
        same_single(self.red, other.red) && same_single(self.green, other.green) && same_single(
            self.blue,
            other.blue,
        ) && same_single(self.alpha, other.alpha)
    }
}

/// How large a plane is: the bits of its sides in double precision.
#[derive(Clone, Copy, Debug, PartialEq, Eq, Structural)]
pub struct Extent {
    pub w: u64,
    pub h: u64,
}

impl Extent {
    /// Whether two extents have equal sides.
    pub open spec fn like(self, other: Extent) -> bool {
        &&& bits::equal_doubles(self.w, other.w)
        &&& bits::equal_doubles(self.h, other.h)
    }

    /// The extent of a size.
    pub open spec fn whole(size: Size) -> Extent {
        Extent { w: bits::double_of(size.w) as u64, h: bits::double_of(size.h) as u64 }
    }

    /// Whether two extents have equal sides.
    pub fn is_like(self, other: Extent) -> (like: bool)
        ensures
            like == self.like(other),
    {
        same_double(self.w, other.w) && same_double(self.h, other.h)
    }

    /// The extent of a size.
    pub fn of(size: Size) -> (extent: Extent)
        ensures
            extent == Extent::whole(size),
    {
        Extent { w: whole_double(size.w), h: whole_double(size.h) }
    }
}

/// A plane of one colour.
#[derive(Clone, Copy, Debug, PartialEq, Eq, Structural)]
pub struct SolidColorBuffer {
    pub size: Extent,
    pub color: Color,
    /// How often the plane changed.
    pub commit: usize,
}

impl Default for SolidColorBuffer {
    fn default() -> (buffer: SolidColorBuffer)
        ensures
            buffer == (SolidColorBuffer {
                size: Extent { w: 0, h: 0 },
                color: Color { red: 0, green: 0, blue: 0, alpha: 0 },
                commit: 0,
            }),
    {
        SolidColorBuffer {
            size: Extent { w: 0, h: 0 },
            color: Color { red: 0, green: 0, blue: 0, alpha: 0 },
            commit: 0,
        }
    }
}

impl SolidColorBuffer {
    /// The plane with one more change.
    pub open spec fn changed(self) -> SolidColorBuffer {
        SolidColorBuffer { commit: self.commit.wrapping_add(1), ..self }
    }

    /// The plane with this size, changed only where it differs.
    pub open spec fn resized(self, size: Extent) -> SolidColorBuffer {
        if size.like(self.size) {
            self
        } else {
            SolidColorBuffer { size, ..self }.changed()
        }
    }

    /// The plane with this colour, changed only where it differs.
    pub open spec fn colored(self, color: Color) -> SolidColorBuffer {
        if color.like(self.color) {
            self
        } else {
            SolidColorBuffer { color, ..self }.changed()
        }
    }

    /// The plane with this size and colour, changed only where one of them differs.
    pub open spec fn looking(self, size: Extent, color: Color) -> SolidColorBuffer {
        if size.like(self.size) && color.like(self.color) {
            self
        } else {
            SolidColorBuffer { size, color, ..self }.changed()
        }
    }

    /// A plane that never changed.
    pub fn new(size: Extent, color: Color) -> (buffer: SolidColorBuffer)
        ensures
            buffer == (SolidColorBuffer { size, color, commit: 0 }),
    {
        SolidColorBuffer { size, color, commit: 0 }
    }

    /// Gives the plane a size.
    pub fn resize(&mut self, size: Extent)
        ensures
            *final(self) == old(self).resized(size),
    {
        if !size.is_like(self.size) {
            self.size = size;
            self.touch();
        }
    }

    /// Gives the plane a colour.
    pub fn set_color(&mut self, color: Color)
        ensures
            *final(self) == old(self).colored(color),
    {
        if !color.is_like(self.color) {
            self.color = color;
            self.touch();
        }
    }

    /// Gives the plane a size and a colour.
    pub fn update(&mut self, size: Extent, color: Color)
        ensures
            *final(self) == old(self).looking(size, color),
    {
        if !(size.is_like(self.size) && color.is_like(self.color)) {
            self.size = size;
            self.color = color;
            self.touch();
        }
    }

    /// Counts a change though nothing looks different.
    pub fn touch(&mut self)
        ensures
            *final(self) == old(self).changed(),
    {
        self.commit = self.commit.wrapping_add(1);
    }

    /// The colour of the plane.
    pub fn color(&self) -> (color: Color)
        ensures
            color == self.color,
    {
        self.color
    }

    /// The size of the plane.
    pub fn size(&self) -> (size: Extent)
        ensures
            size == self.size,
    {
        self.size
    }
}

/// A plane counts a change exactly where its size or its colour is not equal to what it was, and then
/// has the new ones.
pub proof fn changes_show(buffer: SolidColorBuffer, size: Extent, color: Color)
    ensures
        buffer.looking(size, color).commit == buffer.commit <==> size.like(buffer.size)
            && color.like(buffer.color),
        buffer.looking(size, color).commit != buffer.commit ==> buffer.looking(size, color).size
            == size && buffer.looking(size, color).color == color,
        buffer.looking(size, color).commit == buffer.commit ==> buffer.looking(size, color)
            == buffer,
{
}

/// Sizes in whole pixels have equal extents just where they are the same.
pub proof fn whole_extents_differ(left: Size, right: Size)
    ensures
        Extent::whole(left).like(Extent::whole(right)) <==> left == right,
{
    bits::whole_doubles_differ(left.w, right.w);
    bits::whole_doubles_differ(left.h, right.h);
}

} // verus!
