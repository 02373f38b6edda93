use vstd::prelude::*;
use crate::fixed::{magnitude, scale_down, scale_down_wide, Point, Scalar, HALF_UNIT, UNIT};

verus! {

/// A rotation, given by the cosine and the sine of its angle as scalars.
///
/// A point is turned by the matrix that these two make, with the clock where
/// the sine is positive. Nothing asks that the two belong to one angle.
#[derive(Clone, Copy, Debug, PartialEq, Eq, Structural)]
pub struct Rotation {
    /// The cosine of the angle.
    pub cos: Scalar,
    /// The sine of the angle.
    pub sin: Scalar,
}

impl Rotation {
    /// The rotation by the angle zero, which turns nothing.
    pub open spec fn none() -> Rotation {
        Rotation { cos: UNIT, sin: 0 }
    }

    /// The rotation by the angle zero.
    pub fn identity() -> (angle: Rotation)
        ensures
            angle == Rotation::none(),
    {
        Rotation { cos: UNIT, sin: 0 }
    }

    /// Whether the rotation is by a whole number of quarter turns, given
    /// exactly.
    pub open spec fn is_quarter_turn(self) -> bool {
        ||| (self.cos == UNIT && self.sin == 0)
        ||| (self.cos == 0 && self.sin == UNIT)
        ||| (self.cos == -UNIT && self.sin == 0)
        ||| (self.cos == 0 && self.sin == -UNIT)
    }

    /// The rotation by the same angle the other way round.
    pub open spec fn reversed(self) -> Rotation {
        Rotation { cos: self.cos, sin: (-self.sin) as i32 }
    }

    /// Whether cosine and sine can belong to one angle: neither is beyond
    /// one, and their squares add up to one but for what rounding each of
    /// them to a scalar can do.
    pub open spec fn is_nearly_unit(self) -> bool {
        &&& -UNIT <= self.cos <= UNIT
        &&& -UNIT <= self.sin <= UNIT
        &&& -2 * UNIT <= self.cos * self.cos + self.sin * self.sin - UNIT * UNIT <= 2 * UNIT
    }
}

/// The `x` of the point `(x, y)` after the rotation.
pub open spec fn rotated_x(x: int, y: int, angle: Rotation) -> int {
    scale_down(x * angle.cos + y * angle.sin)
}

/// The `y` of the point `(x, y)` after the rotation.
pub open spec fn rotated_y(x: int, y: int, angle: Rotation) -> int {
    scale_down(y * angle.cos - x * angle.sin)
}

/// The product of two scalars stays inside 64 bits.
proof fn lemma_scalars_product_bound(a: int, b: int)
    by (nonlinear_arith)
    requires
        -0x8000_0000 <= a <= 0x8000_0000,
        -0x8000_0000 <= b <= 0x8000_0000,
    ensures
        -0x4000_0000_0000_0000 <= a * b <= 0x4000_0000_0000_0000,
{
}

/// Turns a point by `angle`.
pub(crate) fn rotate(p: Point, angle: Rotation) -> (turned: (i128, i128))
    ensures
        turned.0 == rotated_x(p.0 as int, p.1 as int, angle),
        turned.1 == rotated_y(p.0 as int, p.1 as int, angle),
        -0x1_0000_0000_0000 <= turned.0 <= 0x1_0000_0000_0000,
        -0x1_0000_0000_0000 <= turned.1 <= 0x1_0000_0000_0000,
{
    proof {
        lemma_scalars_product_bound(p.0 as int, angle.cos as int);
        lemma_scalars_product_bound(p.1 as int, angle.sin as int);
        lemma_scalars_product_bound(p.1 as int, angle.cos as int);
        lemma_scalars_product_bound(p.0 as int, angle.sin as int);
    }
    let x: i128 = scale_down_wide(
        p.0 as i128 * angle.cos as i128 + p.1 as i128 * angle.sin as i128,
    );
    let y: i128 = scale_down_wide(
        p.1 as i128 * angle.cos as i128 - p.0 as i128 * angle.sin as i128,
    );
    (x, y)
}

/// Scaling a whole multiple of one back gives the multiplier.
pub(crate) proof fn lemma_scale_down_of_multiple(v: int)
    ensures
        scale_down(v * UNIT) == v,
        scale_down(v * (-UNIT)) == -v,
        scale_down(v * 0) == 0,
{
    assert(v * UNIT == 65536 * v) by (nonlinear_arith);
    assert(v * (-UNIT) == -65536 * v) by (nonlinear_arith);
    assert(v * 0 == 0) by (nonlinear_arith);
}

/// Turning a point by quarter turns and then as far the other way round
/// gives the point back, exactly.
pub proof fn lemma_quarter_turn_and_back(x: int, y: int, angle: Rotation)
    requires
        angle.is_quarter_turn(),
    ensures
        rotated_x(rotated_x(x, y, angle), rotated_y(x, y, angle), angle.reversed()) == x,
        rotated_y(rotated_x(x, y, angle), rotated_y(x, y, angle), angle.reversed()) == y,
{
    lemma_scale_down_of_multiple(x);
    lemma_scale_down_of_multiple(y);
    lemma_scale_down_of_multiple(-x);
    lemma_scale_down_of_multiple(-y);
    let back = angle.reversed();
    let x1 = rotated_x(x, y, angle);
    let y1 = rotated_y(x, y, angle);
    assert(x * 0 == 0 && y * 0 == 0 && (-x) * 0 == 0 && (-y) * 0 == 0) by (nonlinear_arith);
    assert((-x) * UNIT == -(x * UNIT) && (-y) * UNIT == -(y * UNIT)) by (nonlinear_arith);
    assert((-x) * (-UNIT) == x * UNIT && (-y) * (-UNIT) == y * UNIT) by (nonlinear_arith);
    assert(x * (-UNIT) == -(x * UNIT) && y * (-UNIT) == -(y * UNIT)) by (nonlinear_arith);
    if angle.cos == UNIT && angle.sin == 0 {
        assert(x1 == x && y1 == y);
    } else if angle.cos == 0 && angle.sin == UNIT {
        assert(x1 == y && y1 == -x);
    } else if angle.cos == -UNIT && angle.sin == 0 {
        assert(x1 == -x && y1 == -y);
    } else {
        assert(x1 == -y && y1 == x);
    }
}

/// Scaling back rounds to the nearest: what comes out is at most half a step
/// away.
proof fn lemma_scale_down_is_near(n: int)
    ensures
        -HALF_UNIT <= UNIT * scale_down(n) - n <= HALF_UNIT,
{
}

/// A product is bounded by the bound of one factor times the magnitude of
/// the other.
proof fn lemma_product_within(a: int, b: int, limit: int)
    by (nonlinear_arith)
    requires
        -limit <= a <= limit,
    ensures
        -limit * magnitude(b) <= a * b <= limit * magnitude(b),
{
}

/// A factor may be taken into each term of a turn.
proof fn lemma_factor_into_turn(u: int, x1: int, y1: int, c: int, s: int)
    by (nonlinear_arith)
    ensures
        u * (x1 * c + y1 * (-s)) == (u * x1) * c - (u * y1) * s,
        u * (y1 * c - x1 * (-s)) == (u * y1) * c + (u * x1) * s,
{
}

/// Turning there and back without rounding scales a point by the sum of the
/// squares of cosine and sine; what the first turn is off by is carried
/// through the second.
proof fn lemma_exact_turn_back(x: int, y: int, c: int, s: int, a: int, b: int)
    by (nonlinear_arith)
    ensures
        (x * c + y * s + a) * c - (y * c - x * s + b) * s == x * (c * c + s * s) + a * c - b * s,
        (y * c - x * s + b) * c + (x * c + y * s + a) * s == y * (c * c + s * s) + b * c + a * s,
{
}

/// A sum of squares, split into one and the rest.
proof fn lemma_split_excess(x: int, squares: int, one: int)
    by (nonlinear_arith)
    ensures
        x * squares == x * (squares - one) + one * x,
{
}

/// What is left of turning there and back: the point itself, scaled by the
/// sum of the squares of cosine and sine, and the rounding of the first turn
/// carried through the second.
proof fn lemma_turn_back_identity(
    x: int,
    y: int,
    c: int,
    s: int,
    x1: int,
    y1: int,
    a: int,
    b: int,
)
    requires
        UNIT * x1 == x * c + y * s + a,
        UNIT * y1 == y * c - x * s + b,
    ensures
        UNIT * (x1 * c + y1 * (-s)) == x * (c * c + s * s - UNIT * UNIT) + UNIT * UNIT * x + a * c
            - b * s,
        UNIT * (y1 * c - x1 * (-s)) == y * (c * c + s * s - UNIT * UNIT) + UNIT * UNIT * y + b * c
            + a * s,
{
    lemma_factor_into_turn(UNIT as int, x1, y1, c, s);
    lemma_exact_turn_back(x, y, c, s, a, b);
    lemma_split_excess(x, c * c + s * s, UNIT * UNIT);
    lemma_split_excess(y, c * c + s * s, UNIT * UNIT);
}

/// Turning a point and then turning it as far the other way round gives the
/// point back within a tolerance: each coordinate is off by at most one and a
/// half raw steps, and two raw steps for each whole unit of its own size.
pub proof fn lemma_turning_back_is_near(x: int, y: int, angle: Rotation)
    requires
        angle.is_nearly_unit(),
    ensures
        UNIT * magnitude(
            rotated_x(rotated_x(x, y, angle), rotated_y(x, y, angle), angle.reversed()) - x,
        ) <= 2 * magnitude(x) + 3 * HALF_UNIT,
        UNIT * magnitude(
            rotated_y(rotated_x(x, y, angle), rotated_y(x, y, angle), angle.reversed()) - y,
        ) <= 2 * magnitude(y) + 3 * HALF_UNIT,
{
    let c = angle.cos as int;
    let s = angle.sin as int;
    let back = angle.reversed();
    assert(back.cos == c && back.sin == -s);
    let x1 = rotated_x(x, y, angle);
    let y1 = rotated_y(x, y, angle);
    let a = UNIT * x1 - (x * c + y * s);
    let b = UNIT * y1 - (y * c - x * s);
    lemma_scale_down_is_near(x * c + y * s);
    lemma_scale_down_is_near(y * c - x * s);
    let nx = x1 * c + y1 * (-s);
    let ny = y1 * c - x1 * (-s);
    let x2 = rotated_x(x1, y1, back);
    let y2 = rotated_y(x1, y1, back);
    assert(x2 == scale_down(nx));
    assert(y2 == scale_down(ny));
    lemma_scale_down_is_near(nx);
    lemma_scale_down_is_near(ny);
    let dx = UNIT * x2 - nx;
    let dy = UNIT * y2 - ny;
    let excess = c * c + s * s - UNIT * UNIT;
    lemma_turn_back_identity(x, y, c, s, x1, y1, a, b);
    lemma_product_within(excess, x, 2 * UNIT);
    lemma_product_within(excess, y, 2 * UNIT);
    lemma_product_within(a, c, HALF_UNIT as int);
    lemma_product_within(b, s, HALF_UNIT as int);
    lemma_product_within(b, c, HALF_UNIT as int);
    lemma_product_within(a, s, HALF_UNIT as int);
    assert(x * excess == excess * x && y * excess == excess * y) by (nonlinear_arith);
    assert(UNIT * UNIT == 4294967296) by (nonlinear_arith);
    assert(HALF_UNIT * magnitude(c) <= 2147483648 && HALF_UNIT * magnitude(s) <= 2147483648)
        by (nonlinear_arith)
        requires
            -UNIT <= c <= UNIT,
            -UNIT <= s <= UNIT,
    ;
    assert(2 * UNIT * magnitude(x) == 131072 * magnitude(x) && 2 * UNIT * magnitude(y) == 131072
        * magnitude(y)) by (nonlinear_arith);
    assert(UNIT * UNIT * x == 4294967296 * x && UNIT * UNIT * y == 4294967296 * y)
        by (nonlinear_arith);
    // 2^32 (x2 - x) = x * excess + a c - b s + 2^16 dx
    assert(4294967296 * (x2 - x) == excess * x + a * c - b * s + 65536 * dx);
    assert(4294967296 * (y2 - y) == excess * y + b * c + a * s + 65536 * dy);
}

} // verus!
