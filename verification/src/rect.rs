use vstd::prelude::*;

verus! {

/// A room: the tiles from `x1` up to, but not with, `x2`, and from `y1` up to, but not
/// with, `y2`.
pub struct Rect {
    pub x1: i32,
    pub y1: i32,
    pub x2: i32,
    pub y2: i32,
    pub center: (i32, i32),
}

/// Half of `v`, rounded towards zero.
pub open spec fn half(v: int) -> int {
    if v >= 0 {
        v / 2
    } else {
        -((-v) / 2)
    }
}

impl Rect {
    /// Whether the far corner of a room at `(x1, y1)` of size `w` by `h` can be
    /// represented.
    pub open spec fn fits(x1: i32, y1: i32, w: i32, h: i32) -> bool {
        i32::MIN <= x1 + w <= i32::MAX && i32::MIN <= y1 + h <= i32::MAX
    }

    /// The room at `(x1, y1)` of size `w` by `h`, with the tile at its middle.
    pub fn new(x1: i32, y1: i32, w: i32, h: i32) -> (r: Self)
        requires
            Self::fits(x1, y1, w, h),
        ensures
            r.x1 == x1,
            r.y1 == y1,
            r.x2 == x1 + w,
            r.y2 == y1 + h,
            r.center == ((x1 + half(w as int)) as i32, (y1 + half(h as int)) as i32),
    {
        Self { x1, y1, x2: x1 + w, y2: y1 + h, center: (x1 + w / 2, y1 + h / 2) }
    }
}

} // verus!
