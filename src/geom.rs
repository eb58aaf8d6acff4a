//! Geometry primitives: coordinates, sizes, offsets and rectangles.
//!
//! All components are signed 32-bit pixel counts.

use vstd::prelude::*;

verus! {

/// The smaller of two values.
pub open spec fn min_i(a: int, b: int) -> int {
    if a <= b { a } else { b }
}

/// The larger of two values.
pub open spec fn max_i(a: int, b: int) -> int {
    if a >= b { a } else { b }
}

/// Whether a value is representable as an `i32`.
pub open spec fn fits_i32(v: int) -> bool {
    i32::MIN <= v <= i32::MAX
}

/// `a - b` clamped to the range of `i32`.
pub open spec fn sat_sub_i32(a: int, b: int) -> int {
    if a - b > i32::MAX { i32::MAX as int } else if a - b < i32::MIN { i32::MIN as int } else { a - b }
}

fn min32(a: i32, b: i32) -> (r: i32)
    ensures
        r == min_i(a as int, b as int),
{
    if a <= b { a } else { b }
}

/// `a - b`, saturating at the bounds of `i32`.
pub fn sat_sub32(a: i32, b: i32) -> (r: i32)
    ensures
        r == sat_sub_i32(a as int, b as int),
{
    let d = a as i64 - b as i64;
    if d > i32::MAX as i64 {
        i32::MAX
    } else if d < i32::MIN as i64 {
        i32::MIN
    } else {
        d as i32
    }
}

fn max32(a: i32, b: i32) -> (r: i32)
    ensures
        r == max_i(a as int, b as int),
{
    if a >= b { a } else { b }
}

/// An `(x, y)` coordinate.
#[derive(Copy, Clone, PartialEq, Eq, Structural, Debug, Default)]
pub struct Coord(pub i32, pub i32);

/// A `(w, h)` size.
#[derive(Copy, Clone, PartialEq, Eq, Structural, Debug, Default)]
pub struct Size(pub i32, pub i32);

/// A relative `(x, y)` displacement.
#[derive(Copy, Clone, PartialEq, Eq, Structural, Debug, Default)]
pub struct Offset(pub i32, pub i32);

/// A rectangular region: a position and a size.
#[derive(Copy, Clone, PartialEq, Eq, Structural, Debug, Default)]
pub struct Rect {
    pub pos: Coord,
    pub size: Size,
}

impl Coord {
    /// A `Coord` with value `n` on both axes
    pub fn splat(n: i32) -> (r: Coord)
        ensures
            r.0 == n && r.1 == n,
    {
        Coord(n, n)
    }

    /// Return the minimum, componentwise
    pub fn min(self, other: Coord) -> (r: Coord)
        ensures
            r.0 == min_i(self.0 as int, other.0 as int),
            r.1 == min_i(self.1 as int, other.1 as int),
    {
        Coord(min32(self.0, other.0), min32(self.1, other.1))
    }

    /// Return the maximum, componentwise
    pub fn max(self, other: Coord) -> (r: Coord)
        ensures
            r.0 == max_i(self.0 as int, other.0 as int),
            r.1 == max_i(self.1 as int, other.1 as int),
    {
        Coord(max32(self.0, other.0), max32(self.1, other.1))
    }

    /// Return the value clamped to the given `min` and `max`
    ///
    /// In the case that `min > max`, the `min` value is returned.
    pub fn clamp(self, min: Coord, max: Coord) -> (r: Coord)
        ensures
            r.0 == max_i(min_i(self.0 as int, max.0 as int), min.0 as int),
            r.1 == max_i(min_i(self.1 as int, max.1 as int), min.1 as int),
    {
        self.min(max).max(min)
    }

    /// Return the transpose (swap the two components)
    pub fn transpose(self) -> (r: Coord)
        ensures
            r.0 == self.1 && r.1 == self.0,
    {
        Coord(self.1, self.0)
    }

    /// Componentwise sum of two coordinates
    pub fn add(self, other: Coord) -> (r: Coord)
        requires
            fits_i32(self.0 + other.0),
            fits_i32(self.1 + other.1),
        ensures
            r.0 == self.0 + other.0,
            r.1 == self.1 + other.1,
    {
        Coord(self.0 + other.0, self.1 + other.1)
    }

    /// The offset from `other` to `self`
    pub fn sub(self, other: Coord) -> (r: Offset)
        requires
            fits_i32(self.0 - other.0),
            fits_i32(self.1 - other.1),
        ensures
            r.0 == self.0 - other.0,
            r.1 == self.1 - other.1,
    {
        Offset(self.0 - other.0, self.1 - other.1)
    }

    /// Move by an offset
    pub fn add_offset(self, d: Offset) -> (r: Coord)
        requires
            fits_i32(self.0 + d.0),
            fits_i32(self.1 + d.1),
        ensures
            r.0 == self.0 + d.0,
            r.1 == self.1 + d.1,
    {
        Coord(self.0 + d.0, self.1 + d.1)
    }

    /// Move by a size
    pub fn add_size(self, s: Size) -> (r: Coord)
        requires
            fits_i32(self.0 + s.0),
            fits_i32(self.1 + s.1),
        ensures
            r.0 == self.0 + s.0,
            r.1 == self.1 + s.1,
    {
        Coord(self.0 + s.0, self.1 + s.1)
    }
}

impl Offset {
    /// Componentwise sum of two offsets
    pub fn add(self, other: Offset) -> (r: Offset)
        requires
            fits_i32(self.0 + other.0),
            fits_i32(self.1 + other.1),
        ensures
            r.0 == self.0 + other.0,
            r.1 == self.1 + other.1,
    {
        Offset(self.0 + other.0, self.1 + other.1)
    }
}

impl Size {
    /// Uniform size on each axis (square)
    pub fn splat(v: i32) -> (r: Size)
        ensures
            r.0 == v && r.1 == v,
    {
        Size(v, v)
    }

    /// Return the minimum, componentwise
    pub fn min(self, other: Size) -> (r: Size)
        ensures
            r.0 == min_i(self.0 as int, other.0 as int),
            r.1 == min_i(self.1 as int, other.1 as int),
    {
        Size(min32(self.0, other.0), min32(self.1, other.1))
    }

    /// Return the maximum, componentwise
    pub fn max(self, other: Size) -> (r: Size)
        ensures
            r.0 == max_i(self.0 as int, other.0 as int),
            r.1 == max_i(self.1 as int, other.1 as int),
    {
        Size(max32(self.0, other.0), max32(self.1, other.1))
    }

    /// Return the transpose (swap width and height)
    pub fn transpose(self) -> (r: Size)
        ensures
            r.0 == self.1 && r.1 == self.0,
    {
        Size(self.1, self.0)
    }

    /// Componentwise subtraction, saturating at the bounds of `i32`
    pub fn saturating_sub(self, other: Size) -> (r: Size)
        ensures
            r.0 == sat_sub_i32(self.0 as int, other.0 as int),
            r.1 == sat_sub_i32(self.1 as int, other.1 as int),
    {
        Size(sat_sub32(self.0, other.0), sat_sub32(self.1, other.1))
    }
}

impl Rect {
    /// The empty rect at the origin
    pub open spec fn default_spec() -> Rect {
        Rect { pos: Coord(0, 0), size: Size(0, 0) }
    }

    /// The empty rect at the origin
    pub fn zero() -> (r: Rect)
        ensures
            r == Rect::default_spec(),
    {
        Rect { pos: Coord(0, 0), size: Size(0, 0) }
    }

    /// Construct from a [`Coord`] and [`Size`]
    pub fn new(pos: Coord, size: Size) -> (r: Rect)
        ensures
            r.pos == pos && r.size == size,
    {
        Rect { pos, size }
    }

    /// Get pos + size
    pub fn pos_end(&self) -> (r: Coord)
        requires
            fits_i32(self.pos.0 + self.size.0),
            fits_i32(self.pos.1 + self.size.1),
        ensures
            r.0 == self.pos.0 + self.size.0,
            r.1 == self.pos.1 + self.size.1,
    {
        self.pos.add_size(self.size)
    }

    /// Check whether the given coordinate is contained within this rect
    pub fn contains(&self, c: Coord) -> (r: bool)
        ensures
            r == (self.pos.0 <= c.0 < self.pos.0 + self.size.0 && self.pos.1 <= c.1 < self.pos.1
                + self.size.1),
    {
        let x = c.0 as i64;
        let y = c.1 as i64;
        x >= self.pos.0 as i64 && x < self.pos.0 as i64 + self.size.0 as i64 && y
            >= self.pos.1 as i64 && y < self.pos.1 as i64 + self.size.1 as i64
    }

    /// Shrink self in all directions by the given `n`
    ///
    /// The size saturates rather than overflowing.
    pub fn shrink(&self, n: i32) -> (r: Rect)
        requires
            fits_i32(self.pos.0 + n),
            fits_i32(self.pos.1 + n),
            fits_i32(2 * n),
        ensures
            r.pos.0 == self.pos.0 + n,
            r.pos.1 == self.pos.1 + n,
            r.size.0 == sat_sub_i32(self.size.0 as int, 2 * n),
            r.size.1 == sat_sub_i32(self.size.1 as int, 2 * n),
    {
        let pos = self.pos.add(Coord::splat(n));
        let w = sat_sub32(self.size.0, n + n);
        let h = sat_sub32(self.size.1, n + n);
        Rect { pos, size: Size(w, h) }
    }

    /// Translate the rect by `offset`
    pub fn translate(&self, offset: Coord) -> (r: Rect)
        requires
            fits_i32(self.pos.0 + offset.0),
            fits_i32(self.pos.1 + offset.1),
        ensures
            r.pos.0 == self.pos.0 + offset.0,
            r.pos.1 == self.pos.1 + offset.1,
            r.size == self.size,
    {
        Rect { pos: self.pos.add(offset), size: self.size }
    }

    /// Translate the rect by minus `offset`
    pub fn translate_back(&self, offset: Coord) -> (r: Rect)
        requires
            fits_i32(self.pos.0 - offset.0),
            fits_i32(self.pos.1 - offset.1),
        ensures
            r.pos.0 == self.pos.0 - offset.0,
            r.pos.1 == self.pos.1 - offset.1,
            r.size == self.size,
    {
        Rect { pos: Coord(self.pos.0 - offset.0, self.pos.1 - offset.1), size: self.size }
    }
}

} // verus!

verus! {

/// One of the four axis-aligned directions.
#[derive(Copy, Clone, PartialEq, Eq, Structural, Debug, Hash)]
pub enum Direction {
    Right,
    Down,
    Left,
    Up,
}

impl Direction {
    /// True for `Down` and `Up`
    pub open spec fn spec_is_vertical(self) -> bool {
        self is Down || self is Up
    }

    /// True for `Down` and `Up`
    pub fn is_vertical(self) -> (r: bool)
        ensures
            r == self.spec_is_vertical(),
    {
        match self {
            Direction::Down | Direction::Up => true,
            _ => false,
        }
    }
}

} // verus!
