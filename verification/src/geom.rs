//! Fixed-point plane geometry: points, squared distance, and angle helpers.
//!
//! All coordinates and angles are Q16.16 fixed-point values carried in `i64`:
//! one spatial or angular unit is `ONE` (65536). Angles are radians in that
//! scale, so a full turn is `TWO_PI_FP` and headings are kept in
//! `[0, TWO_PI_FP)`.

use vstd::prelude::*;

verus! {

/// One unit (1.0) in Q16.16 fixed point.
pub const ONE: i64 = 65536;

/// Pi in Q16.16 fixed point.
pub const PI_FP: i64 = 205887;

/// A full turn (two pi) in Q16.16 fixed point.
pub const TWO_PI_FP: i64 = 411774;

/// Largest coordinate magnitude the geometry functions accept; keeps all
/// squared-distance arithmetic inside `i64`.
pub const MAX_COORD_FP: i64 = 536870912;

/// A point of the arena plane, in Q16.16 fixed point.
#[derive(Clone, Copy, PartialEq, Eq, Structural, Debug)]
pub struct Pt {
    pub x: i64,
    pub y: i64,
}

/// A coordinate pair the geometry functions accept.
pub open spec fn bounded_pt(p: Pt) -> bool {
    &&& 0 <= p.x <= MAX_COORD_FP
    &&& 0 <= p.y <= MAX_COORD_FP
}

/// The squared Euclidean distance between two points.
pub open spec fn spec_dist_sq(p1: Pt, p2: Pt) -> int {
    (p1.x - p2.x) * (p1.x - p2.x) + (p1.y - p2.y) * (p1.y - p2.y)
}

/// Squared Euclidean distance. Comparing it with a squared radius decides
/// "within distance" questions exactly, with no rounding.
pub fn distance_sq(p1: Pt, p2: Pt) -> (r: i64)
    requires
        bounded_pt(p1),
        bounded_pt(p2),
    ensures
        r == spec_dist_sq(p1, p2),
        r >= 0,
{
    let dx: i64 = p1.x - p2.x;
    let dy: i64 = p1.y - p2.y;
    proof {
        assert(dx * dx + dy * dy <= 2 * (MAX_COORD_FP as int) * (MAX_COORD_FP as int)
            && dx * dx >= 0 && dy * dy >= 0) by (nonlinear_arith)
            requires
                -MAX_COORD_FP <= dx <= MAX_COORD_FP,
                -MAX_COORD_FP <= dy <= MAX_COORD_FP,
        ;
    }
    dx * dx + dy * dy
}

/// What `pos_angle` returns: a negative angle shifted up by one full turn.
pub open spec fn spec_pos_angle(a: int) -> int {
    if a < 0 {
        a + TWO_PI_FP
    } else {
        a
    }
}

/// Turns an angle into its non-negative representative by adding a full turn
/// to a negative value. For angles in `(-TWO_PI_FP, TWO_PI_FP)` the result is
/// a normalized heading.
pub fn pos_angle(a: i64) -> (r: i64)
    requires
        -TWO_PI_FP < a < TWO_PI_FP,
    ensures
        r == spec_pos_angle(a as int),
        0 <= r < TWO_PI_FP,
{
    if a < 0 {
        a + TWO_PI_FP
    } else {
        a
    }
}

/// The sum of two normalized angles, reduced back into `[0, TWO_PI_FP)`.
pub open spec fn spec_add_angle(a: int, b: int) -> int {
    if a + b < TWO_PI_FP {
        a + b
    } else {
        a + b - TWO_PI_FP
    }
}

/// Adds two normalized angles and normalizes the sum.
pub fn add_angle(a: i64, b: i64) -> (r: i64)
    requires
        0 <= a < TWO_PI_FP,
        0 <= b < TWO_PI_FP,
    ensures
        r == spec_add_angle(a as int, b as int),
        0 <= r < TWO_PI_FP,
{
    let s: i64 = a + b;
    if s < TWO_PI_FP {
        s
    } else {
        s - TWO_PI_FP
    }
}

} // verus!
