//! Axis-aligned rectangle geometry: containment, overlap, and the
//! minimal-shift clamping used to keep a moving object inside a play area.

use vstd::prelude::*;

verus! {

/// An axis-aligned rectangle in integer pixel coordinates. `x` and `y` locate
/// the top-left corner; `w` and `h` are the extents. A rectangle is well
/// formed only when both extents are non-negative ([`Rectangle::wf`]);
/// constructing one with a negative extent is a programming error.
#[derive(Clone, Copy, Debug, PartialEq, Eq, Structural)]
pub struct Rectangle {
    pub x: i32,
    pub y: i32,
    pub w: i32,
    pub h: i32,
}

impl Rectangle {
    /// Well-formedness: extents are non-negative.
    pub open spec fn wf(self) -> bool {
        self.w >= 0 && self.h >= 0
    }

    /// `other` lies entirely within `self`, edges included: every corner of
    /// `other` is inside the closed region spanned by `self`.
    pub open spec fn spec_contains(self, other: Rectangle) -> bool {
        &&& self.x <= other.x
        &&& other.x + other.w <= self.x + self.w
        &&& self.y <= other.y
        &&& other.y + other.h <= self.y + self.h
    }

    /// The interiors of `self` and `other` intersect. The inequalities are
    /// strict, so rectangles sharing only an edge do not overlap.
    pub open spec fn spec_overlaps(self, other: Rectangle) -> bool {
        &&& self.x < other.x + other.w
        &&& other.x < self.x + self.w
        &&& self.y < other.y + other.h
        &&& other.y < self.y + self.h
    }

    /// Where one axis of a rectangle of extent `len` at position `pos` ends up
    /// when shifted by the least amount that puts it inside the axis of a
    /// parent of extent `plen` at position `ppos` (defined when `len <= plen`).
    pub open spec fn clamp_axis(pos: int, len: int, ppos: int, plen: int) -> int {
        if pos < ppos {
            ppos
        } else if pos + len >= ppos + plen {
            ppos + plen - len
        } else {
            pos
        }
    }

    /// The outcome of [`Rectangle::move_inside`]: `None` when `self` is wider
    /// or taller than `parent`, otherwise `self` shifted per axis by the
    /// minimal amount that places it inside `parent`.
    pub open spec fn spec_move_inside(self, parent: Rectangle) -> Option<Rectangle> {
        if self.w > parent.w || self.h > parent.h {
            None
        } else {
            Some(Rectangle {
                x: Self::clamp_axis(self.x as int, self.w as int, parent.x as int, parent.w as int) as i32,
                y: Self::clamp_axis(self.y as int, self.h as int, parent.y as int, parent.h as int) as i32,
                w: self.w,
                h: self.h,
            })
        }
    }

    /// True iff `other` lies entirely within `self`, edges included.
    pub fn contains(&self, other: Rectangle) -> (r: bool)
        ensures
            r == self.spec_contains(other),
    {
        self.x <= other.x
            && (other.x as i64) + (other.w as i64) <= (self.x as i64) + (self.w as i64)
            && self.y <= other.y
            && (other.y as i64) + (other.h as i64) <= (self.y as i64) + (self.h as i64)
    }

    /// True iff the interiors of `self` and `other` intersect; sharing only
    /// an edge is not an overlap.
    pub fn overlaps(&self, other: Rectangle) -> (r: bool)
        ensures
            r == self.spec_overlaps(other),
    {
        (self.x as i64) < (other.x as i64) + (other.w as i64)
            && (other.x as i64) < (self.x as i64) + (self.w as i64)
            && (self.y as i64) < (other.y as i64) + (other.h as i64)
            && (other.y as i64) < (self.y as i64) + (self.h as i64)
    }

    /// Returns `self` moved by the minimal per-axis shift that places it
    /// inside `parent`, or `None` when it is too wide or too tall to fit.
    pub fn move_inside(self, parent: Rectangle) -> (r: Option<Rectangle>)
        ensures
            r == self.spec_move_inside(parent),
    {
        if self.w > parent.w || self.h > parent.h {
            return None;
        }

        let x: i32 = if self.x < parent.x {
            parent.x
        } else if (self.x as i64) + (self.w as i64) >= (parent.x as i64) + (parent.w as i64) {
            (((parent.x as i64) + (parent.w as i64) - (self.w as i64)) as i32)
        } else {
            self.x
        };

        let y: i32 = if self.y < parent.y {
            parent.y
        } else if (self.y as i64) + (self.h as i64) >= (parent.y as i64) + (parent.h as i64) {
            (((parent.y as i64) + (parent.h as i64) - (self.h as i64)) as i32)
        } else {
            self.y
        };

        Some(Rectangle { x, y, w: self.w, h: self.h })
    }
}

/// Containment of a rectangle with positive area implies overlap: a contained
/// rectangle can fail to overlap its container only by being degenerate.
pub proof fn lemma_contains_implies_overlaps(a: Rectangle, b: Rectangle)
    requires
        a.wf(),
        b.wf(),
        a.spec_contains(b),
    ensures
        a.spec_overlaps(b) || b.w == 0 || b.h == 0,
{
}

/// Overlap is symmetric.
pub proof fn lemma_overlaps_symmetric(a: Rectangle, b: Rectangle)
    ensures
        a.spec_overlaps(b) == b.spec_overlaps(a),
{
}

/// Whenever `b` fits in `a` (`b.w <= a.w` and `b.h <= a.h`), clamping
/// succeeds for every placement of `b` and the result lies inside `a`.
pub proof fn lemma_move_inside_contained(a: Rectangle, b: Rectangle)
    requires
        a.wf(),
        b.wf(),
        b.w <= a.w,
        b.h <= a.h,
    ensures
        b.spec_move_inside(a) matches Some(q) && a.spec_contains(q),
{
}

/// Clamping fails exactly when the rectangle is too wide or too tall for the
/// parent, whatever its position.
pub proof fn lemma_move_inside_fails_iff_too_large(a: Rectangle, b: Rectangle)
    ensures
        b.spec_move_inside(a) is None <==> (b.w > a.w || b.h > a.h),
{
}

} // verus!
