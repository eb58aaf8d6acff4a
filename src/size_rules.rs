//! Size-rule algebra: the per-axis sizing contract of a widget, and how
//! such contracts combine.

use vstd::prelude::*;
use crate::geom::{fits_i32, max_i, Direction, Size};

verus! {

/// Priority for stretching widgets beyond ideal size
///
/// Space is allocated based on priority, with extra space (beyond the ideal)
/// shared between widgets in the highest priority class present.
#[derive(Copy, Clone, Debug, PartialEq, Eq, Structural, Hash)]
pub enum Stretch {
    /// Prefer no stretching
    NoStretch,
    /// Fill unwanted space
    Filler,
    /// Extra space is considered of low utility (but higher than `Filler`)
    Low,
    /// Extra space is considered of high utility
    High,
    /// Greedily consume as much space as possible
    Maximize,
}

impl Stretch {
    /// Position of this class in the order `None < Filler < Low < High < Maximize`
    pub open spec fn spec_rank(self) -> nat {
        match self {
            Stretch::NoStretch => 0,
            Stretch::Filler => 1,
            Stretch::Low => 2,
            Stretch::High => 3,
            Stretch::Maximize => 4,
        }
    }

    /// Position of this class in the order `None < Filler < Low < High < Maximize`
    pub fn rank(self) -> (r: u8)
        ensures
            r == self.spec_rank(),
    {
        match self {
            Stretch::NoStretch => 0,
            Stretch::Filler => 1,
            Stretch::Low => 2,
            Stretch::High => 3,
            Stretch::Maximize => 4,
        }
    }

    /// The higher-priority of two classes
    pub open spec fn spec_max(self, other: Stretch) -> Stretch {
        if self.spec_rank() >= other.spec_rank() { self } else { other }
    }

    /// The higher-priority of two classes
    pub fn max(self, other: Stretch) -> (r: Stretch)
        ensures
            r == self.spec_max(other),
    {
        if self.rank() >= other.rank() { self } else { other }
    }
}

impl Default for Stretch {
    fn default() -> (r: Stretch)
        ensures
            r == Stretch::NoStretch,
    {
        Stretch::NoStretch
    }
}

/// The larger of two `u16` values.
pub open spec fn max_u16(a: u16, b: u16) -> u16 {
    if a >= b { a } else { b }
}

fn max16(a: u16, b: u16) -> (r: u16)
    ensures
        r == max_u16(a, b),
{
    if a >= b { a } else { b }
}

/// `v` converted to `u16`, saturating at both ends of its range.
pub open spec fn sat_u16(v: int) -> u16 {
    if v < 0 { 0u16 } else if v > u16::MAX { u16::MAX } else { v as u16 }
}

fn sat_u16_of(v: i64) -> (r: u16)
    ensures
        r == sat_u16(v as int),
{
    if v < 0 {
        0
    } else if v > u16::MAX as i64 {
        u16::MAX
    } else {
        v as u16
    }
}

/// Margin sizes
///
/// Used by the layout system for margins around child widgets.
#[derive(Copy, Clone, Debug, Default, PartialEq, Eq)]
pub struct Margins {
    /// Size of horizontal margins
    pub horiz: (u16, u16),
    /// Size of vertical margins
    pub vert: (u16, u16),
}

impl Margins {
    /// Zero-sized margins
    pub fn zero() -> (r: Margins)
        ensures
            r.horiz == (0u16, 0u16) && r.vert == (0u16, 0u16),
    {
        Margins::splat(0)
    }

    /// Margins with equal size on each edge.
    pub fn splat(size: u16) -> (r: Margins)
        ensures
            r.horiz == (size, size) && r.vert == (size, size),
    {
        Margins::hv_splat((size, size))
    }

    /// Margins via horizontal and vertical sizes
    pub fn hv(horiz: (u16, u16), vert: (u16, u16)) -> (r: Margins)
        ensures
            r.horiz == horiz && r.vert == vert,
    {
        Margins { horiz, vert }
    }

    /// Margins via horizontal and vertical sizes, equal on both sides
    pub fn hv_splat(hv: (u16, u16)) -> (r: Margins)
        ensures
            r.horiz == (hv.0, hv.0) && r.vert == (hv.1, hv.1),
    {
        let (h, v) = hv;
        Margins { horiz: (h, h), vert: (v, v) }
    }

    /// Sum of horizontal margins
    pub fn sum_horiz(&self) -> (r: i32)
        ensures
            r == self.horiz.0 + self.horiz.1,
    {
        self.horiz.0 as i32 + self.horiz.1 as i32
    }

    /// Sum of vertical margins
    pub fn sum_vert(&self) -> (r: i32)
        ensures
            r == self.vert.0 + self.vert.1,
    {
        self.vert.0 as i32 + self.vert.1 as i32
    }

    /// Pad a size with margins
    pub fn pad(self, size: Size) -> (r: Size)
        requires
            fits_i32(size.0 + self.horiz.0 + self.horiz.1),
            fits_i32(size.1 + self.vert.0 + self.vert.1),
        ensures
            r.0 == size.0 + self.horiz.0 + self.horiz.1,
            r.1 == size.1 + self.vert.0 + self.vert.1,
    {
        Size(size.0 + self.sum_horiz(), size.1 + self.sum_vert())
    }

    /// Extract the component along the axis of `dir`
    ///
    /// This never reverses the pair, even if the direction is reversed.
    pub fn extract(self, dir: Direction) -> (r: (u16, u16))
        ensures
            r == (if dir.spec_is_vertical() { self.vert } else { self.horiz }),
    {
        if dir.is_vertical() { self.vert } else { self.horiz }
    }
}

/// Widget size and layout rules along one axis
///
/// `min` is the minimum and `ideal` the preferred size; `margins` are the
/// (before, after) margins and `stretch` the priority for extra space.
/// A valid value has `0 <= min <= ideal`.
#[derive(Copy, Clone, Debug, PartialEq, Eq)]
pub struct SizeRules {
    pub min: i32,
    pub ideal: i32,
    pub margins: (u16, u16),
    pub stretch: Stretch,
}

/// Rules for placing `a` then `b` along an axis: sizes add up together
/// with the larger of the two margins that meet between them.
pub open spec fn appended(a: SizeRules, b: SizeRules) -> SizeRules {
    let c = max_u16(a.margins.1, b.margins.0) as int;
    SizeRules {
        min: (a.min + b.min + c) as i32,
        ideal: (a.ideal + b.ideal + c) as i32,
        margins: (a.margins.0, b.margins.1),
        stretch: a.stretch.spec_max(b.stretch),
    }
}

/// Whether placing `a` then `b` gives sizes that fit an `i32`.
pub open spec fn can_append(a: SizeRules, b: SizeRules) -> bool {
    a.ideal + b.ideal + max_u16(a.margins.1, b.margins.0) <= i32::MAX
}

/// Rules that satisfy both `a` and `b`: the componentwise maximum.
pub open spec fn max_rules(a: SizeRules, b: SizeRules) -> SizeRules {
    SizeRules {
        min: max_i(a.min as int, b.min as int) as i32,
        ideal: max_i(a.ideal as int, b.ideal as int) as i32,
        margins: (max_u16(a.margins.0, b.margins.0), max_u16(a.margins.1, b.margins.1)),
        stretch: a.stretch.spec_max(b.stretch),
    }
}

impl SizeRules {
    /// Validity: `0 <= min <= ideal`
    pub open spec fn wf(self) -> bool {
        0 <= self.min <= self.ideal
    }

    /// Empty (zero size) rules
    pub fn empty() -> (r: SizeRules)
        ensures
            r.wf(),
            r.min == 0 && r.ideal == 0,
            r.margins == (0u16, 0u16),
            r.stretch == Stretch::NoStretch,
    {
        SizeRules { min: 0, ideal: 0, margins: (0, 0), stretch: Stretch::NoStretch }
    }

    /// A fixed size with given `(pre, post)` margins
    pub fn fixed(size: i32, margins: (u16, u16)) -> (r: SizeRules)
        requires
            0 <= size,
        ensures
            r.wf(),
            r.min == size && r.ideal == size,
            r.margins == margins,
            r.stretch == Stretch::NoStretch,
    {
        SizeRules { min: size, ideal: size, margins, stretch: Stretch::NoStretch }
    }

    /// Construct rules from given data
    ///
    /// An `ideal` below `min` is raised to `min`.
    pub fn new(min: i32, ideal: i32, margins: (u16, u16), stretch: Stretch) -> (r: SizeRules)
        requires
            0 <= min,
            0 <= ideal,
        ensures
            r.wf(),
            r.min == min,
            r.ideal == max_i(min as int, ideal as int),
            r.margins == margins,
            r.stretch == stretch,
    {
        let ideal = if ideal >= min { ideal } else { min };
        SizeRules { min, ideal, margins, stretch }
    }

    /// The minimum size
    pub fn min_size(self) -> (r: i32)
        ensures
            r == self.min,
    {
        self.min
    }

    /// The ideal size
    pub fn ideal_size(self) -> (r: i32)
        ensures
            r == self.ideal,
    {
        self.ideal
    }

    /// The `(pre, post)` margins
    pub fn margins(self) -> (r: (u16, u16))
        ensures
            r == self.margins,
    {
        self.margins
    }

    /// The `(pre, post)` margins, as `i32`
    pub fn margins_i32(self) -> (r: (i32, i32))
        ensures
            r.0 == self.margins.0 && r.1 == self.margins.1,
    {
        (self.margins.0 as i32, self.margins.1 as i32)
    }

    /// The stretch priority
    pub fn stretch(self) -> (r: Stretch)
        ensures
            r == self.stretch,
    {
        self.stretch
    }

    /// Set the stretch priority
    pub fn set_stretch(&mut self, stretch: Stretch)
        ensures
            *final(self) == (SizeRules { stretch, ..*old(self) }),
    {
        self.stretch = stretch;
    }

    /// Set the `(pre, post)` margins
    pub fn set_margins(&mut self, margins: (u16, u16))
        ensures
            *final(self) == (SizeRules { margins, ..*old(self) }),
    {
        self.margins = margins;
    }

    /// Use the maximum of the two rules, componentwise
    ///
    /// Used where alternatives compete for the same space.
    pub fn max(self, rhs: SizeRules) -> (r: SizeRules)
        requires
            self.wf(),
            rhs.wf(),
        ensures
            r == max_rules(self, rhs),
            r.wf(),
    {
        SizeRules {
            min: if self.min >= rhs.min { self.min } else { rhs.min },
            ideal: if self.ideal >= rhs.ideal { self.ideal } else { rhs.ideal },
            margins: (max16(self.margins.0, rhs.margins.0), max16(self.margins.1, rhs.margins.1)),
            stretch: self.stretch.max(rhs.stretch),
        }
    }

    /// Set `self` to the componentwise maximum of `self` and `rhs`
    pub fn max_with(&mut self, rhs: SizeRules)
        requires
            old(self).wf(),
            rhs.wf(),
        ensures
            *final(self) == max_rules(*old(self), rhs),
            final(self).wf(),
    {
        *self = self.max(rhs);
    }

    /// Rules for `self` followed by `rhs` along the same axis
    ///
    /// Sizes sum; the margins between the two are the larger of the two that
    /// meet; the outer margins are those of the two ends.
    pub fn appended(self, rhs: SizeRules) -> (r: SizeRules)
        requires
            self.wf(),
            rhs.wf(),
            can_append(self, rhs),
        ensures
            r == appended(self, rhs),
            r.wf(),
    {
        let c = max16(self.margins.1, rhs.margins.0) as i32;
        SizeRules {
            min: self.min + rhs.min + c,
            ideal: self.ideal + rhs.ideal + c,
            margins: (self.margins.0, rhs.margins.1),
            stretch: self.stretch.max(rhs.stretch),
        }
    }

    /// Append `rhs` to `self` along the same axis
    pub fn append(&mut self, rhs: SizeRules)
        requires
            old(self).wf(),
            rhs.wf(),
            can_append(*old(self), rhs),
        ensures
            *final(self) == appended(*old(self), rhs),
            final(self).wf(),
    {
        *self = self.appended(rhs);
    }
}

/// Axis information passed when computing size rules
#[derive(Copy, Clone, Debug, PartialEq, Eq, Structural)]
pub struct AxisInfo {
    vertical: bool,
    has_fixed: bool,
    other_axis: u32,
}

impl AxisInfo {
    /// Construct for the given axis, with the other axis's size if fixed
    pub fn new(vertical: bool, fixed: Option<u32>) -> (r: AxisInfo)
        ensures
            r.spec_vertical() == vertical,
            r.spec_other() == fixed,
    {
        match fixed {
            Some(v) => AxisInfo { vertical, has_fixed: true, other_axis: v },
            None => AxisInfo { vertical, has_fixed: false, other_axis: 0 },
        }
    }

    /// True if the current axis is vertical
    pub closed spec fn spec_vertical(self) -> bool {
        self.vertical
    }

    /// The fixed size of the other axis, if any
    pub closed spec fn spec_other(self) -> Option<u32> {
        if self.has_fixed { Some(self.other_axis) } else { None }
    }

    /// True if the current axis is vertical, false if horizontal
    pub fn vertical(&self) -> (r: bool)
        ensures
            r == self.spec_vertical(),
    {
        self.vertical
    }

    /// Size of other axis, if fixed and `vertical == self.vertical()`
    pub fn fixed(&self, vertical: bool) -> (r: Option<u32>)
        ensures
            r == (if vertical == self.spec_vertical() { self.spec_other() } else { None }),
    {
        if vertical == self.vertical && self.has_fixed {
            Some(self.other_axis)
        } else {
            None
        }
    }
}

} // verus!

verus! {

/// Frame size rules
///
/// Rules for a frame drawn around content along one axis: the content offset
/// (the size of the first edge), the total size of both edges, the minimum
/// inner margin, and the frame's own outer `(pre, post)` margins.
#[derive(Clone, Copy, Debug, PartialEq, Eq)]
pub struct FrameRules {
    pub offset: i32,
    pub size: i32,
    pub inner_margin: i32,
    pub m: (u16, u16),
}

/// The result of surrounding content with a frame: the new rules, the
/// content offset within the allocated space, and the size consumed by the
/// frame and its inner margins.
pub open spec fn surrounded(content: SizeRules, offset: int, size: int, margins: (u16, u16)) -> (
    SizeRules,
    i32,
    i32,
) {
    (
        SizeRules {
            min: (content.min + size) as i32,
            ideal: (content.ideal + size) as i32,
            margins,
            stretch: content.stretch,
        },
        offset as i32,
        size as i32,
    )
}

/// Whether content rules grown by `size` stay valid and fit an `i32`.
pub open spec fn can_grow(content: SizeRules, size: int) -> bool {
    0 <= content.min + size && content.ideal + size <= i32::MAX
}

impl FrameRules {
    /// Construct from the sizes of the first (left or top) and second
    /// (right or bottom) edges, the minimum inner margin and outer margins
    pub fn new(first: i32, second: i32, inner_margin: i32, outer_margins: (u16, u16)) -> (r:
        FrameRules)
        requires
            fits_i32(first + second),
        ensures
            r.offset == first,
            r.size == first + second,
            r.inner_margin == inner_margin,
            r.m == outer_margins,
    {
        FrameRules { offset: first, size: first + second, inner_margin, m: outer_margins }
    }

    /// Construct, symmetric on the axis
    pub fn new_sym(size: i32, inner_margin: i32, outer_margin: u16) -> (r: FrameRules)
        requires
            fits_i32(2 * size),
        ensures
            r.offset == size,
            r.size == 2 * size,
            r.inner_margin == inner_margin,
            r.m == (outer_margin, outer_margin),
    {
        Self::new(size, size, inner_margin, (outer_margin, outer_margin))
    }

    /// Content margins on each side: the larger of the content's own and the
    /// frame's inner margin.
    pub open spec fn with_margin_sides(self, content: SizeRules) -> (int, int) {
        (
            max_i(content.margins.0 as int, self.inner_margin as int),
            max_i(content.margins.1 as int, self.inner_margin as int),
        )
    }

    /// Size consumed by [`Self::surround_with_margin`]
    pub open spec fn with_margin_size(self, content: SizeRules) -> int {
        self.size + self.with_margin_sides(content).0 + self.with_margin_sides(content).1
    }

    /// Size consumed by [`Self::surround_as_margin`] and
    /// [`Self::surround_no_margin`]
    pub open spec fn plain_size(self) -> int {
        self.size + 2 * self.inner_margin
    }

    /// Content offset used by [`Self::surround_as_margin`] and
    /// [`Self::surround_no_margin`]
    pub open spec fn plain_offset(self) -> int {
        self.offset + self.inner_margin
    }

    /// Outer margins given by [`Self::surround_as_margin`]: the content's
    /// margin less the frame on each side, at least zero and saturated to
    /// `u16`, then the larger of that and the frame's own margin.
    pub open spec fn as_margin_margins(self, content: SizeRules) -> (u16, u16) {
        let m0 = sat_u16(content.margins.0 - self.plain_offset());
        let m1 = sat_u16(content.margins.1 + self.plain_offset() - self.plain_size());
        (max_u16(self.m.0, m0), max_u16(self.m.1, m1))
    }

    /// Rules for content surrounded by this frame, both margins counting
    ///
    /// The content's margins apply inside this frame, each at least the
    /// frame's inner margin. External margins come from this frame.
    ///
    /// Returns `(rules, offset, size)`: the rules, the content offset within
    /// the allocated space, and the size consumed by the frame and inner
    /// margins.
    pub fn surround_with_margin(self, content: SizeRules) -> (r: (SizeRules, i32, i32))
        requires
            content.wf(),
            fits_i32(self.offset + self.with_margin_sides(content).0),
            fits_i32(self.with_margin_size(content)),
            can_grow(content, self.with_margin_size(content)),
        ensures
            r == surrounded(
                content,
                self.offset + self.with_margin_sides(content).0,
                self.with_margin_size(content),
                self.m,
            ),
            r.0.wf(),
    {
        let (m0, m1) = content.margins_i32();
        let m0 = if m0 >= self.inner_margin { m0 } else { self.inner_margin };
        let m1 = if m1 >= self.inner_margin { m1 } else { self.inner_margin };
        let offset = self.offset + m0;
        let size = (self.size as i64 + m0 as i64 + m1 as i64) as i32;
        let rules = SizeRules::new(content.min + size, content.ideal + size, self.m, content.stretch);
        (rules, offset, size)
    }

    /// Rules for content surrounded by this frame, the frame standing in for
    /// the content's margin
    ///
    /// The content's margin is reduced by the size of the frame, with any
    /// residual margin applying outside the frame (the larger of that and the
    /// frame's own margin). Otherwise as [`Self::surround_no_margin`].
    pub fn surround_as_margin(self, content: SizeRules) -> (r: (SizeRules, i32, i32))
        requires
            content.wf(),
            fits_i32(self.plain_offset()),
            fits_i32(self.plain_size()),
            can_grow(content, self.plain_size()),
        ensures
            r == surrounded(content, self.plain_offset(), self.plain_size(), self.as_margin_margins(content)),
            r.0.wf(),
    {
        let offset = (self.offset as i64 + self.inner_margin as i64) as i32;
        let size = (self.size as i64 + 2 * self.inner_margin as i64) as i32;
        let m0 = sat_u16_of(content.margins.0 as i64 - offset as i64);
        let m1 = sat_u16_of(content.margins.1 as i64 + offset as i64 - size as i64);
        let margins = (max16(self.m.0, m0), max16(self.m.1, m1));
        let rules = SizeRules::new(content.min + size, content.ideal + size, margins, content.stretch);
        (rules, offset, size)
    }

    /// Rules for content surrounded by this frame, the content's margins
    /// discarded
    ///
    /// The frame's inner margin applies on both sides; external margins come
    /// from this frame.
    pub fn surround_no_margin(self, content: SizeRules) -> (r: (SizeRules, i32, i32))
        requires
            content.wf(),
            fits_i32(self.plain_offset()),
            fits_i32(self.plain_size()),
            can_grow(content, self.plain_size()),
        ensures
            r == surrounded(content, self.plain_offset(), self.plain_size(), self.m),
            r.0.wf(),
    {
        let offset = (self.offset as i64 + self.inner_margin as i64) as i32;
        let size = (self.size as i64 + 2 * self.inner_margin as i64) as i32;
        let rules = SizeRules::new(content.min + size, content.ideal + size, self.m, content.stretch);
        (rules, offset, size)
    }
}

} // verus!

verus! {

/// Valid rules stay valid (`0 <= min <= ideal`) under every combination:
/// the maximum of two, one placed after another, and a frame around
/// content with any of the three margin policies
pub proof fn lemma_rules_stay_valid(a: SizeRules, b: SizeRules, f: FrameRules)
    requires
        a.wf(),
        b.wf(),
    ensures
        max_rules(a, b).wf(),
        can_append(a, b) ==> appended(a, b).wf(),
        can_grow(a, f.with_margin_size(a)) ==> surrounded(
            a,
            f.offset + f.with_margin_sides(a).0,
            f.with_margin_size(a),
            f.m,
        ).0.wf(),
        can_grow(a, f.plain_size()) ==> surrounded(a, f.plain_offset(), f.plain_size(), f.m).0.wf(),
        can_grow(a, f.plain_size()) ==> surrounded(
            a,
            f.plain_offset(),
            f.plain_size(),
            f.as_margin_margins(a),
        ).0.wf(),
{
}

} // verus!
