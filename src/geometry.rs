use vstd::prelude::*;

verus! {

/// Largest magnitude a coordinate may have, in pixels.
pub const COORD_LIMIT: i64 = 1_000_000;

/// Largest width or height a rectangle may have, in pixels.
pub const SIZE_LIMIT: i64 = 1_000_000;

/// How far each of two rectangles is grown on every side when testing them
/// for a visual seam.
pub const SEAM_PADDING: i64 = 1;

/// A position in integer pixel coordinates (y grows downwards).
#[derive(Clone, Copy, Debug, PartialEq, Eq, Structural)]
pub struct Point {
    pub x: i64,
    pub y: i64,
}

impl Point {
    pub open spec fn wf(self) -> bool {
        -COORD_LIMIT <= self.x <= COORD_LIMIT && -COORD_LIMIT <= self.y <= COORD_LIMIT
    }

    pub fn new(x: i64, y: i64) -> (r: Point)
        ensures
            r.x == x,
            r.y == y,
    {
        Point { x, y }
    }
}

/// An axis-aligned rectangle: top-left corner plus width and height.
///
/// Rectangles are closed: a point on the border is inside, and two
/// rectangles that share an edge intersect.
#[derive(Clone, Copy, Debug, PartialEq, Eq, Structural)]
pub struct Rect {
    pub x: i64,
    pub y: i64,
    pub w: i64,
    pub h: i64,
}

/// Clamps `v` into `[lo, hi]`.
pub open spec fn clamp_spec(v: int, lo: int, hi: int) -> int {
    if v < lo {
        lo
    } else if v > hi {
        hi
    } else {
        v
    }
}

pub open spec fn abs_spec(v: int) -> int {
    if v < 0 {
        -v
    } else {
        v
    }
}

impl Rect {
    pub open spec fn wf(self) -> bool {
        -COORD_LIMIT <= self.x <= COORD_LIMIT && -COORD_LIMIT <= self.y <= COORD_LIMIT && 0
            <= self.w <= SIZE_LIMIT && 0 <= self.h <= SIZE_LIMIT
    }

    pub open spec fn right(self) -> int {
        self.x + self.w
    }

    pub open spec fn bottom(self) -> int {
        self.y + self.h
    }

    /// Twice the horizontal center, so that it stays an integer.
    pub open spec fn center_x2(self) -> int {
        2 * self.x + self.w
    }

    /// Twice the vertical center, so that it stays an integer.
    pub open spec fn center_y2(self) -> int {
        2 * self.y + self.h
    }

    pub open spec fn holds(self, p: Point) -> bool {
        self.x <= p.x <= self.right() && self.y <= p.y <= self.bottom()
    }

    pub open spec fn meets(self, o: Rect) -> bool {
        self.x <= o.right() && o.x <= self.right() && self.y <= o.bottom() && o.y <= self.bottom()
    }

    /// `self` touches `o` once both are grown by the seam padding on every
    /// side.
    pub open spec fn near(self, o: Rect) -> bool {
        self.x - SEAM_PADDING <= o.right() + SEAM_PADDING && o.x - SEAM_PADDING <= self.right()
            + SEAM_PADDING && self.y - SEAM_PADDING <= o.bottom() + SEAM_PADDING && o.y
            - SEAM_PADDING <= self.bottom() + SEAM_PADDING
    }

    pub open spec fn within(self, o: Rect) -> bool {
        o.x <= self.x && self.right() <= o.right() && o.y <= self.y && self.bottom() <= o.bottom()
    }

    pub fn new(x: i64, y: i64, w: i64, h: i64) -> (r: Rect)
        ensures
            r == (Rect { x, y, w, h }),
    {
        Rect { x, y, w, h }
    }

    pub fn origin(&self) -> (r: Point)
        ensures
            r.x == self.x && r.y == self.y,
    {
        Point { x: self.x, y: self.y }
    }

    pub fn contains(&self, p: Point) -> (r: bool)
        requires
            i64::MIN <= self.right() <= i64::MAX,
            i64::MIN <= self.bottom() <= i64::MAX,
        ensures
            r == self.holds(p),
    {
        self.x <= p.x && p.x <= self.x + self.w && self.y <= p.y && p.y <= self.y + self.h
    }

    pub fn intersects(&self, o: &Rect) -> (r: bool)
        requires
            self.wf(),
            o.wf(),
        ensures
            r == self.meets(*o),
    {
        self.x <= o.x + o.w && o.x <= self.x + self.w && self.y <= o.y + o.h && o.y <= self.y
            + self.h
    }

    /// Whether `self` and `o`, both grown by one pixel, meet: placing `self`
    /// there would leave no visible gap.
    pub fn conflicts(&self, o: &Rect) -> (r: bool)
        requires
            self.wf(),
            o.wf(),
        ensures
            r == self.near(*o),
    {
        self.x - SEAM_PADDING <= o.x + o.w + SEAM_PADDING && o.x - SEAM_PADDING <= self.x + self.w
            + SEAM_PADDING && self.y - SEAM_PADDING <= o.y + o.h + SEAM_PADDING && o.y
            - SEAM_PADDING <= self.y + self.h + SEAM_PADDING
    }

    pub fn is_within(&self, o: &Rect) -> (r: bool)
        requires
            self.wf(),
            o.wf(),
        ensures
            r == self.within(*o),
    {
        o.x <= self.x && self.x + self.w <= o.x + o.w && o.y <= self.y && self.y + self.h <= o.y
            + o.h
    }

    /// The center, rounded down to whole pixels.
    pub fn center(&self) -> (r: Point)
        requires
            self.wf(),
        ensures
            r.x == self.center_x2() / 2,
            r.y == self.center_y2() / 2,
    {
        Point { x: half_floor(2 * self.x + self.w), y: half_floor(2 * self.y + self.h) }
    }
}

/// `v / 2` rounded towards negative infinity.
pub fn half_floor(v: i64) -> (r: i64)
    requires
        v > i64::MIN + 1,
    ensures
        r == v / 2,
{
    if v >= 0 {
        v / 2
    } else {
        let r: i64 = -((1 - v) / 2);
        assert(r == v / 2) by {
            assert(0 <= (1 - v) - 2 * ((1 - v) / 2) < 2);
        }
        r
    }
}

pub fn clamp(v: i64, lo: i64, hi: i64) -> (r: i64)
    requires
        lo <= hi,
    ensures
        r == clamp_spec(v as int, lo as int, hi as int),
{
    if v < lo {
        lo
    } else if v > hi {
        hi
    } else {
        v
    }
}

} // verus!
