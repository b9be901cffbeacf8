use vstd::prelude::*;

verus! {

/// Axis-aligned rectangle used during dungeon generation.
///
/// The stored corners are half-open on the high side for carving purposes
/// (only the interior cells, exclusive of every boundary edge, are carved),
/// while collision testing treats the rectangle as closed, so that two
/// touching rooms count as colliding and keep a one-tile buffer.
#[derive(Clone, Copy, Debug)]
pub struct Rect {
    pub x1: usize,
    pub y1: usize,
    pub x2: usize,
    pub y2: usize,
}

impl Rect {
    /// A rectangle is well formed when it has a non-empty extent on both axes.
    pub open spec fn wf(self) -> bool {
        self.x1 < self.x2 && self.y1 < self.y2
    }

    /// Centroid: midpoint of the two opposite corners, truncating division.
    pub open spec fn center_spec(self) -> (int, int) {
        ((self.x1 + self.x2) / 2, (self.y1 + self.y2) / 2)
    }

    /// Closed-rectangle intersection: touching edges count as a collision.
    pub open spec fn collides_spec(self, other: Rect) -> bool {
        self.x1 <= other.x2 && self.x2 >= other.x1 && self.y1 <= other.y2 && self.y2
            >= other.y1
    }

    pub fn new(x: usize, y: usize, w: usize, h: usize) -> (r: Rect)
        requires
            x + w <= usize::MAX,
            y + h <= usize::MAX,
        ensures
            r == (Rect { x1: x, y1: y, x2: (x + w) as usize, y2: (y + h) as usize }),
    {
        Rect { x1: x, y1: y, x2: x + w, y2: y + h }
    }

    pub fn center(&self) -> (c: (usize, usize))
        requires
            self.x1 + self.x2 <= usize::MAX,
            self.y1 + self.y2 <= usize::MAX,
        ensures
            (c.0 as int, c.1 as int) == self.center_spec(),
    {
        ((self.x1 + self.x2) / 2, (self.y1 + self.y2) / 2)
    }

    pub fn collides(&self, rect: &Rect) -> (r: bool)
        ensures
            r == self.collides_spec(*rect),
    {
        (self.x1 <= rect.x2) && (self.x2 >= rect.x1) && (self.y1 <= rect.y2) && (self.y2
            >= rect.y1)
    }
}

} // verus!
