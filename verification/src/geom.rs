//! Axis-aligned rectangles and colors, the plain-data geometry the collision
//! and lighting passes work on. Rectangle semantics (strict-overlap
//! intersection, integer center, corner points) match what the renderer's
//! rectangle type provides, so world bounds computed here drive both passes.

use vstd::prelude::*;

verus! {

/// Largest rectangle origin magnitude, in pixels.
pub const RECT_POS_LIMIT: i32 = 0x4000_0000;

/// Largest rectangle extent, in pixels.
pub const RECT_SIZE_LIMIT: u32 = 8192;

/// An axis-aligned box in pixel coordinates: origin at the top-left corner,
/// extending `w` to the right and `h` downward.
#[derive(Clone, Copy, PartialEq, Eq, Structural, Debug)]
pub struct Rect {
    pub x: i32,
    pub y: i32,
    pub w: u32,
    pub h: u32,
}

/// Well-formed rectangles have positive extents and stay far from the `i32`
/// edge, so that edge and penetration arithmetic cannot overflow.
pub open spec fn rect_wf(r: Rect) -> bool {
    &&& -RECT_POS_LIMIT <= r.x <= RECT_POS_LIMIT
    &&& -RECT_POS_LIMIT <= r.y <= RECT_POS_LIMIT
    &&& 0 < r.w <= RECT_SIZE_LIMIT
    &&& 0 < r.h <= RECT_SIZE_LIMIT
}

pub open spec fn rect_left(r: Rect) -> int {
    r.x as int
}

pub open spec fn rect_right(r: Rect) -> int {
    r.x + r.w
}

pub open spec fn rect_top(r: Rect) -> int {
    r.y as int
}

pub open spec fn rect_bottom(r: Rect) -> int {
    r.y + r.h
}

/// Strict overlap: rectangles that merely share an edge do not intersect.
pub open spec fn rects_intersect(a: Rect, b: Rect) -> bool {
    &&& rect_left(a) < rect_right(b)
    &&& rect_left(b) < rect_right(a)
    &&& rect_top(a) < rect_bottom(b)
    &&& rect_top(b) < rect_bottom(a)
}

/// The clipped overlap of two intersecting rectangles.
pub open spec fn rect_overlap(a: Rect, b: Rect) -> Rect {
    let x = if a.x >= b.x { a.x } else { b.x };
    let y = if a.y >= b.y { a.y } else { b.y };
    let right = if rect_right(a) <= rect_right(b) { rect_right(a) } else { rect_right(b) };
    let bottom = if rect_bottom(a) <= rect_bottom(b) { rect_bottom(a) } else { rect_bottom(b) };
    Rect { x, y, w: (right - x) as u32, h: (bottom - y) as u32 }
}

impl Rect {
    pub fn new(x: i32, y: i32, w: u32, h: u32) -> (r: Rect)
        ensures
            r == (Rect { x, y, w, h }),
    {
        Rect { x, y, w, h }
    }

    pub fn right(&self) -> (v: i32)
        requires
            rect_wf(*self),
        ensures
            v == rect_right(*self),
    {
        self.x + (self.w as i32)
    }

    pub fn bottom(&self) -> (v: i32)
        requires
            rect_wf(*self),
        ensures
            v == rect_bottom(*self),
    {
        self.y + (self.h as i32)
    }

    /// The center point, extents halved toward the origin.
    pub fn center(&self) -> (c: (i32, i32))
        requires
            rect_wf(*self),
        ensures
            c.0 == self.x + self.w / 2,
            c.1 == self.y + self.h / 2,
    {
        (self.x + (self.w / 2) as i32, self.y + (self.h / 2) as i32)
    }

    /// Whether the two rectangles strictly overlap.
    pub fn has_intersection(&self, other: &Rect) -> (b: bool)
        requires
            rect_wf(*self),
            rect_wf(*other),
        ensures
            b == rects_intersect(*self, *other),
    {
        self.x < other.x + (other.w as i32) && other.x < self.x + (self.w as i32) && self.y
            < other.y + (other.h as i32) && other.y < self.y + (self.h as i32)
    }

    /// The clipped overlap, or `None` when the rectangles do not strictly
    /// overlap.
    pub fn intersection(&self, other: &Rect) -> (res: Option<Rect>)
        requires
            rect_wf(*self),
            rect_wf(*other),
        ensures
            res is Some <==> rects_intersect(*self, *other),
            res is Some ==> res->Some_0 == rect_overlap(*self, *other),
            res is Some ==> rect_wf(res->Some_0),
    {
        if !self.has_intersection(other) {
            return None;
        }
        let x: i32 = if self.x >= other.x {
            self.x
        } else {
            other.x
        };
        let y: i32 = if self.y >= other.y {
            self.y
        } else {
            other.y
        };
        let sr: i32 = self.right();
        let or: i32 = other.right();
        let right: i32 = if sr <= or {
            sr
        } else {
            or
        };
        let sb: i32 = self.bottom();
        let ob: i32 = other.bottom();
        let bottom: i32 = if sb <= ob {
            sb
        } else {
            ob
        };
        Some(Rect { x, y, w: (right - x) as u32, h: (bottom - y) as u32 })
    }
}

/// An opaque RGB color; alpha never varies in this core.
#[derive(Clone, Copy, PartialEq, Eq, Structural, Debug)]
pub struct Color {
    pub r: u8,
    pub g: u8,
    pub b: u8,
}

impl Color {
    pub fn rgb(r: u8, g: u8, b: u8) -> (c: Color)
        ensures
            c == (Color { r, g, b }),
    {
        Color { r, g, b }
    }
}

} // verus!
