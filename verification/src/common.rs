//! # RTWins common definitions

use vstd::prelude::*;

verus! {

/// Widget coordinates on screen or on parent widget
#[derive(Clone, Copy, Default, Debug, PartialEq, Eq, Structural)]
pub struct Coord {
    pub col: u8,
    pub row: u8,
}

/// Saturating addition of two `u8` values, as `u8::saturating_add` computes it
pub open spec fn sat_add_u8(a: u8, b: u8) -> u8 {
    if a + b > u8::MAX { u8::MAX } else { (a + b) as u8 }
}

/// Saturating subtraction of two `u8` values, as `u8::saturating_sub` computes it
pub open spec fn sat_sub_u8(a: u8, b: u8) -> u8 {
    if a < b { 0 } else { (a - b) as u8 }
}

impl Coord {
    /// Returns default object
    pub fn cdeflt() -> (c: Self)
        ensures
            c.col == 0 && c.row == 0,
    {
        Coord { col: 0, row: 0 }
    }

    /// Creates a new coordinates with column and row set to given `c` and `r`
    pub fn new(c: u8, r: u8) -> (res: Self)
        ensures
            res.col == c && res.row == r,
    {
        Coord { col: c, row: r }
    }
}

impl core::ops::Add for Coord {
    type Output = Self;

    fn add(self, rhs: Coord) -> (r: Coord) {
        Coord { col: self.col.saturating_add(rhs.col), row: self.row.saturating_add(rhs.row) }
    }
}

impl vstd::std_specs::ops::AddSpecImpl for Coord {
    open spec fn obeys_add_spec() -> bool {
        true
    }

    open spec fn add_req(self, rhs: Coord) -> bool {
        true
    }

    open spec fn add_spec(self, rhs: Coord) -> Coord {
        Coord { col: sat_add_u8(self.col, rhs.col), row: sat_add_u8(self.row, rhs.row) }
    }
}

impl core::ops::AddAssign for Coord {
    fn add_assign(&mut self, rhs: Self)
        ensures
            final(self).col == sat_add_u8(old(self).col, rhs.col),
            final(self).row == sat_add_u8(old(self).row, rhs.row),
    {
        self.col = self.col.saturating_add(rhs.col);
        self.row = self.row.saturating_add(rhs.row);
    }
}

impl core::ops::Sub for Coord {
    type Output = Self;

    fn sub(self, rhs: Coord) -> (r: Coord) {
        Coord { col: self.col.saturating_sub(rhs.col), row: self.row.saturating_sub(rhs.row) }
    }
}

impl vstd::std_specs::ops::SubSpecImpl for Coord {
    open spec fn obeys_sub_spec() -> bool {
        true
    }

    open spec fn sub_req(self, rhs: Coord) -> bool {
        true
    }

    open spec fn sub_spec(self, rhs: Coord) -> Coord {
        Coord { col: sat_sub_u8(self.col, rhs.col), row: sat_sub_u8(self.row, rhs.row) }
    }
}

impl core::ops::SubAssign for Coord {
    fn sub_assign(&mut self, rhs: Self)
        ensures
            final(self).col == sat_sub_u8(old(self).col, rhs.col),
            final(self).row == sat_sub_u8(old(self).row, rhs.row),
    {
        self.col = self.col.saturating_sub(rhs.col);
        self.row = self.row.saturating_sub(rhs.row);
    }
}

/// Widget size
#[derive(Clone, Copy, Default, Debug, PartialEq, Eq, Structural)]
pub struct Size {
    pub width: u8,
    pub height: u8,
}

impl Size {
    /// Returns default object
    pub fn cdeflt() -> (s: Size)
        ensures
            s.width == 0 && s.height == 0,
    {
        Size { width: 0, height: 0 }
    }

    /// Creates a new size object with width and height set to `w` and `h`
    pub fn new(w: u8, h: u8) -> (s: Self)
        ensures
            s.width == w && s.height == h,
    {
        Size { width: w, height: h }
    }
}

impl core::ops::Sub for Size {
    type Output = Self;

    fn sub(self, other: Size) -> (r: Size) {
        Size {
            width: self.width.saturating_sub(other.width),
            height: self.height.saturating_sub(other.height),
        }
    }
}

impl vstd::std_specs::ops::SubSpecImpl for Size {
    open spec fn obeys_sub_spec() -> bool {
        true
    }

    open spec fn sub_req(self, rhs: Size) -> bool {
        true
    }

    open spec fn sub_spec(self, rhs: Size) -> Size {
        Size { width: sat_sub_u8(self.width, rhs.width), height: sat_sub_u8(self.height, rhs.height) }
    }
}

/// Rectangle area
#[derive(Clone, Copy, Debug, PartialEq, Eq, Structural)]
pub struct Rect {
    pub coord: Coord,
    pub size: Size,
}

/// The point `col:row` lies in the rectangle (edges computed without wrap-around)
pub open spec fn point_in_rect(r: Rect, col: int, row: int) -> bool {
    &&& r.coord.col <= col < r.coord.col + r.size.width
    &&& r.coord.row <= row < r.coord.row + r.size.height
}

/// The rectangle `inner` lies in the rectangle `outer` (edges computed without wrap-around)
pub open spec fn rect_in_rect(outer: Rect, inner: Rect) -> bool {
    &&& outer.coord.col <= inner.coord.col
    &&& inner.coord.col + inner.size.width <= outer.coord.col + outer.size.width
    &&& outer.coord.row <= inner.coord.row
    &&& inner.coord.row + inner.size.height <= outer.coord.row + outer.size.height
}

impl Rect {
    /// Returns default object
    pub fn cdeflt() -> (r: Rect)
        ensures
            r.coord == (Coord { col: 0, row: 0 }),
            r.size == (Size { width: 0, height: 0 }),
    {
        Rect { coord: Coord::cdeflt(), size: Size::cdeflt() }
    }

    /// Creates a new rect object with coordinates and size set
    /// according to `col, row` and `w, h`
    pub fn new(col: u8, row: u8, w: u8, h: u8) -> (r: Rect)
        ensures
            r.coord == (Coord { col, row }),
            r.size == (Size { width: w, height: h }),
    {
        Rect { coord: Coord::new(col, row), size: Size::new(w, h) }
    }

    /// Makes the rectangle cover the whole addressable area
    pub fn set_max(&mut self)
        ensures
            final(self).coord == (Coord { col: 0, row: 0 }),
            final(self).size == (Size { width: u8::MAX, height: u8::MAX }),
    {
        self.coord.col = 0;
        self.coord.row = 0;
        self.size.width = u8::MAX;
        self.size.height = u8::MAX;
    }

    /// Checks if given point at `col:row` is within this rectangle
    pub fn is_point_within(&self, col: u8, row: u8) -> (r: bool)
        ensures
            r == point_in_rect(*self, col as int, row as int),
    {
        let c: u16 = col as u16;
        let rw: u16 = row as u16;
        c >= self.coord.col as u16 && c < self.coord.col as u16 + self.size.width as u16
            && rw >= self.coord.row as u16 && rw < self.coord.row as u16
            + self.size.height as u16
    }

    /// Check if `r` fits within this rectangle
    pub fn is_rect_within(&self, r: &Rect) -> (res: bool)
        ensures
            res == rect_in_rect(*self, *r),
    {
        r.coord.col >= self.coord.col && r.coord.col as u16 + r.size.width as u16
            <= self.coord.col as u16 + self.size.width as u16 && r.coord.row >= self.coord.row
            && r.coord.row as u16 + r.size.height as u16 <= self.coord.row as u16
            + self.size.height as u16
    }
}

/// Font attributes.
/// Some of them may be combined
#[derive(Clone, Copy, Debug, PartialEq, Eq, Structural)]
pub enum FontAttrib {
    /// Styles - only one at a time
    NoAttrib,
    Bold,
    Faint,
    Italics,
    /// Decorators - may be combined
    Underline,
    Blink,
    Inverse,
    Invisible,
    StrikeThrough,
}

/// Mouse reporting modes
#[derive(Clone, Copy, Debug, PartialEq, Eq, Structural)]
pub enum MouseMode {
    /// reporting disabled
    Off,
    /// only buttons
    M1,
    /// buttons and wheel
    M2,
}

/// A rectangle lies within itself
pub proof fn lemma_rect_within_reflexive(r: Rect)
    ensures
        rect_in_rect(r, r),
{
}

/// Containment of rectangles is transitive
pub proof fn lemma_rect_within_transitive(a: Rect, b: Rect, c: Rect)
    requires
        rect_in_rect(a, b),
        rect_in_rect(b, c),
    ensures
        rect_in_rect(a, c),
{
}

/// A point of an inner rectangle is a point of the outer one
pub proof fn lemma_point_in_inner_rect(outer: Rect, inner: Rect, col: int, row: int)
    requires
        rect_in_rect(outer, inner),
        point_in_rect(inner, col, row),
    ensures
        point_in_rect(outer, col, row),
{
}

} // verus!
