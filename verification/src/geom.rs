//! 2D integer geometry: vectors, axis-aligned bounding boxes, overlap and
//! closest-point queries, and saturating coordinate arithmetic.
//!
//! Coordinates are `i64` values in milli-pixels (1 pixel = 1000 units).

use vstd::prelude::*;

verus! {

/// A 2D vector in milli-pixels.
#[derive(Clone, Copy, Debug, PartialEq, Eq, Structural)]
pub struct Vec2i {
    pub x: i64,
    pub y: i64,
}

/// An axis-aligned bounding box given by its center and half extents.
#[derive(Clone, Copy, Debug, PartialEq, Eq, Structural)]
pub struct Aabb {
    pub center: Vec2i,
    pub half: Vec2i,
}

/// The side of a box on which a collision is classified.
#[derive(Clone, Copy, Debug, PartialEq, Eq, Structural)]
pub enum Side {
    Left,
    Right,
    Top,
    Bottom,
}

impl Aabb {
    /// Half extents never point inward.
    pub open spec fn wf(self) -> bool {
        self.half.x >= 0 && self.half.y >= 0
    }

    pub open spec fn spec_min_x(self) -> int {
        self.center.x - self.half.x
    }

    pub open spec fn spec_max_x(self) -> int {
        self.center.x + self.half.x
    }

    pub open spec fn spec_min_y(self) -> int {
        self.center.y - self.half.y
    }

    pub open spec fn spec_max_y(self) -> int {
        self.center.y + self.half.y
    }
}

/// Two boxes overlap when their projections on both axes overlap; touching
/// edges count as overlap.
pub open spec fn spec_intersects(a: Aabb, b: Aabb) -> bool {
    &&& a.spec_min_x() <= b.spec_max_x()
    &&& b.spec_min_x() <= a.spec_max_x()
    &&& a.spec_min_y() <= b.spec_max_y()
    &&& b.spec_min_y() <= a.spec_max_y()
}

/// Clamping an integer into an interval.
pub open spec fn spec_clamp(v: int, lo: int, hi: int) -> int {
    if v < lo {
        lo
    } else if v > hi {
        hi
    } else {
        v
    }
}

/// The point of box `b` closest to point `p`, componentwise.
pub open spec fn spec_closest_point(b: Aabb, p: Vec2i) -> (int, int) {
    (
        spec_clamp(p.x as int, b.spec_min_x(), b.spec_max_x()),
        spec_clamp(p.y as int, b.spec_min_y(), b.spec_max_y()),
    )
}

/// Classification of a collision side from the offset of `a`'s center to the
/// closest point of `b`: the axis with the larger magnitude wins, a tie goes
/// to the horizontal axis.
pub open spec fn spec_side_of_offset(ox: int, oy: int) -> Side {
    if abs_int(ox) >= abs_int(oy) {
        if ox < 0 {
            Side::Left
        } else {
            Side::Right
        }
    } else {
        if oy > 0 {
            Side::Top
        } else {
            Side::Bottom
        }
    }
}

pub open spec fn abs_int(v: int) -> int {
    if v < 0 {
        -v
    } else {
        v
    }
}

/// The side on which `a` collides with `b`, defined whenever they intersect.
pub open spec fn spec_collision_side(a: Aabb, b: Aabb) -> Side {
    spec_side_of_offset(
        a.center.x - spec_closest_point(b, a.center).0,
        a.center.y - spec_closest_point(b, a.center).1,
    )
}

/// The visible play area, queried from the host each tick. Dimensions are
/// milli-pixels; the origin is the center, so x spans
/// `[-width / 2, width / 2]` and y spans `[-height / 2, height / 2]`.
#[derive(Clone, Copy, Debug, PartialEq, Eq, Structural)]
pub struct Viewport {
    pub width: i64,
    pub height: i64,
}

impl Viewport {
    pub open spec fn wf(self) -> bool {
        &&& 0 <= self.width <= crate::config::MAX_DIM
        &&& 0 <= self.height <= crate::config::MAX_DIM
    }
}

/// Addition on `i64` that clamps at the ends of the range instead of wrapping.
pub open spec fn spec_sat_add(a: int, b: int) -> int {
    if a + b > i64::MAX {
        i64::MAX as int
    } else if a + b < i64::MIN {
        i64::MIN as int
    } else {
        a + b
    }
}

pub fn sat_add(a: i64, b: i64) -> (r: i64)
    ensures
        r == spec_sat_add(a as int, b as int),
{
    let wide: i128 = (a as i128) + (b as i128);
    if wide > i64::MAX as i128 {
        i64::MAX
    } else if wide < i64::MIN as i128 {
        i64::MIN
    } else {
        wide as i64
    }
}

pub fn clamp_i64(v: i64, lo: i64, hi: i64) -> (r: i64)
    requires
        lo <= hi,
    ensures
        r == spec_clamp(v as int, lo as int, hi as int),
{
    if v < lo {
        lo
    } else if v > hi {
        hi
    } else {
        v
    }
}

pub fn intersects(a: &Aabb, b: &Aabb) -> (r: bool)
    ensures
        r == spec_intersects(*a, *b),
{
    let a_min_x: i128 = (a.center.x as i128) - (a.half.x as i128);
    let a_max_x: i128 = (a.center.x as i128) + (a.half.x as i128);
    let a_min_y: i128 = (a.center.y as i128) - (a.half.y as i128);
    let a_max_y: i128 = (a.center.y as i128) + (a.half.y as i128);
    let b_min_x: i128 = (b.center.x as i128) - (b.half.x as i128);
    let b_max_x: i128 = (b.center.x as i128) + (b.half.x as i128);
    let b_min_y: i128 = (b.center.y as i128) - (b.half.y as i128);
    let b_max_y: i128 = (b.center.y as i128) + (b.half.y as i128);
    a_min_x <= b_max_x && b_min_x <= a_max_x && a_min_y <= b_max_y && b_min_y <= a_max_y
}

/// The side on which box `a` touches box `b`, or `None` when they do not
/// overlap at all.
pub fn collision_side(a: &Aabb, b: &Aabb) -> (r: Option<Side>)
    requires
        b.wf(),
    ensures
        match r {
            Some(side) => spec_intersects(*a, *b) && side == spec_collision_side(*a, *b),
            None => !spec_intersects(*a, *b),
        },
{
    if !intersects(a, b) {
        return None;
    }
    let b_min_x: i128 = (b.center.x as i128) - (b.half.x as i128);
    let b_max_x: i128 = (b.center.x as i128) + (b.half.x as i128);
    let b_min_y: i128 = (b.center.y as i128) - (b.half.y as i128);
    let b_max_y: i128 = (b.center.y as i128) + (b.half.y as i128);
    let px: i128 = a.center.x as i128;
    let py: i128 = a.center.y as i128;
    let cx: i128 = if px < b_min_x {
        b_min_x
    } else if px > b_max_x {
        b_max_x
    } else {
        px
    };
    let cy: i128 = if py < b_min_y {
        b_min_y
    } else if py > b_max_y {
        b_max_y
    } else {
        py
    };
    let ox: i128 = px - cx;
    let oy: i128 = py - cy;
    let ax: i128 = if ox < 0 {
        -ox
    } else {
        ox
    };
    let ay: i128 = if oy < 0 {
        -oy
    } else {
        oy
    };
    let side = if ax >= ay {
        if ox < 0 {
            Side::Left
        } else {
            Side::Right
        }
    } else {
        if oy > 0 {
            Side::Top
        } else {
            Side::Bottom
        }
    };
    Some(side)
}

} // verus!
