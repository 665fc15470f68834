//! Points of a challenge as it is solved.

use vstd::prelude::*;

verus! {

/// Integer division rounding toward zero, by a positive divisor.
pub open spec fn div_toward_zero(a: int, d: int) -> int {
    if a >= 0 { a / d } else { -((-a) / d) }
}

/// The points of a challenge after `solves` solves: decreasing from
/// `points_max` by a twentieth of the range per solve, never below `points_min`.
pub open spec fn points_after(points_min: int, points_max: int, solves: int) -> int {
    let v = points_max - div_toward_zero((points_max - points_min) * solves, 20);
    if points_min >= v { points_min } else { v }
}

/// Points of a challenge after `solves` solves.
pub fn point_formula(points_min: i32, points_max: i32, solves: i32) -> (r: i32)
    requires
        i32::MIN <= points_max - points_min <= i32::MAX,
        i32::MIN <= (points_max - points_min) * solves <= i32::MAX,
        i32::MIN <= points_max - div_toward_zero((points_max - points_min) * solves, 20) <= i32::MAX,
    ensures
        r == points_after(points_min as int, points_max as int, solves as int),
{
    let spread = points_max - points_min;
    let product = spread * solves;
    let step: i32 = if product >= 0 { product / 20 } else { -((-(product as i64)) / 20) as i32 };
    let v = points_max - step;
    if points_min >= v { points_min } else { v }
}

} // verus!
