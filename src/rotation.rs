use vstd::prelude::*;

verus! {

/// How many clockwise quarter turns a rotation by `degrees` amounts to, in `0..4`.
pub open spec fn clockwise_quarter_turns(degrees: int) -> int {
    (degrees / 90) % 4
}

/// The vector `(x, y)` turned clockwise by `turns` quarter turns, for `turns` in `0..4`.
pub open spec fn turned(x: int, y: int, turns: int) -> (int, int) {
    if turns == 0 {
        (x, y)
    } else if turns == 1 {
        (y, -x)
    } else if turns == 2 {
        (-x, -y)
    } else {
        (-y, x)
    }
}

/// The vector `(x, y)` rotated clockwise by `degrees`, a multiple of 90
/// (negative values turn counter-clockwise).
pub open spec fn rotated(x: int, y: int, degrees: int) -> (int, int) {
    turned(x, y, clockwise_quarter_turns(degrees))
}

/// An `i64` whose negation is again an `i64`.
pub open spec fn negatable(v: int) -> bool {
    -(i64::MAX as int) <= v <= i64::MAX
}

/// Rotates the vector `(x, y)` clockwise by `rotation` degrees, a multiple of 90;
/// a negative rotation turns counter-clockwise.
pub fn rotate_waypoint(x: i64, y: i64, rotation: i64) -> (r: (i64, i64))
    requires
        rotation % 90 == 0,
        negatable(x as int),
        negatable(y as int),
    ensures
        (r.0 as int, r.1 as int) == rotated(x as int, y as int, rotation as int),
{
    let turns: u64 = if rotation >= 0 {
        (rotation as u64 / 90) % 4
    } else {
        let back: u64 = ((-rotation) as u64 / 90) % 4;
        proof {
            let d = rotation as int;
            let k = (-d) / 90;
            assert(d == -90 * k) by {
                assert(d == 90 * (d / 90));
            }
            assert(d / 90 == -k) by (nonlinear_arith)
                requires d == -90 * k;
            assert((-k) % 4 == (4 - k % 4) % 4) by (nonlinear_arith);
        }
        (4 - back) % 4
    };
    assert(turns as int == clockwise_quarter_turns(rotation as int));
    if turns == 0 {
        (x, y)
    } else if turns == 1 {
        (y, -x)
    } else if turns == 2 {
        (-x, -y)
    } else {
        (-y, x)
    }
}

/// Turning a vector four times by the same multiple of 90 degrees brings it back
/// where it started: a full turn is no turn at all.
pub proof fn lemma_four_rotations_identity(x: int, y: int, degrees: int)
    requires
        degrees % 90 == 0,
    ensures
        ({
            let a = rotated(x, y, degrees);
            let b = rotated(a.0, a.1, degrees);
            let c = rotated(b.0, b.1, degrees);
            rotated(c.0, c.1, degrees)
        }) == (x, y),
{
    let t = clockwise_quarter_turns(degrees);
    assert(0 <= t < 4);
    if t == 0 {
    } else if t == 1 {
    } else if t == 2 {
    } else {
    }
}

} // verus!
