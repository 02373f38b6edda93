use vstd::prelude::*;
use rand::Rng;
use crate::fixed::{
    add_saturating, fixed_mul, mul_saturating, mul_scaled, saturate, saturate_wide,
    saturating_difference, saturating_product, saturating_quotient, saturating_sum, scale_down,
    scale_down_wide, div_saturating, sub_saturating, Point, Scalar, UNIT,
};
use crate::rotation::{rotated_x, rotated_y, Rotation};

verus! {

/// The raw value of a full turn in degrees.
pub const FULL_TURN: i32 = 23592960;

/// The raw value of half a turn in degrees.
pub const HALF_TURN: i32 = 11796480;

/// `n / 100`, rounded to the nearest integer, a tie away from zero.
pub open spec fn nearest_hundredth_part(n: int) -> int {
    if n >= 0 {
        (n + 50) / 100
    } else {
        -((-n + 50) / 100)
    }
}

/// The raw value `v` rounded to a whole number of hundredths, before any
/// saturation: the nearest number of hundredths, and then the raw value
/// nearest to that many hundredths.
pub open spec fn rounded_to_hundredths(v: int) -> int {
    nearest_hundredth_part(scale_down(v * 100) * UNIT)
}

/// The point `(x, y)` turned about `(cx, cy)` by `angle`, each coordinate
/// rounded to hundredths and kept inside the scalar range.
pub open spec fn rotated_point(x: Scalar, y: Scalar, cx: Scalar, cy: Scalar, angle: Rotation) -> Point {
    (
        saturate(rounded_to_hundredths(rotated_x(x - cx, y - cy, angle) + cx)) as i32,
        saturate(rounded_to_hundredths(rotated_y(x - cx, y - cy, angle) + cy)) as i32,
    )
}

/// `value`, or the bound that it has passed.
pub open spec fn clamped(value: Scalar, min: Scalar, max: Scalar) -> Scalar {
    if value < min {
        min
    } else if value > max {
        max
    } else {
        value
    }
}

/// The point a share `u` of the way from `v1` to `v2`, kept inside the
/// scalar range.
pub open spec fn lerped(v1: Scalar, v2: Scalar, u: Scalar) -> Scalar {
    saturate(v1 + fixed_mul(v2 - v1, u as int)) as i32
}

/// The remainder of `a` by a positive `m` that has the sign of `a`.
pub open spec fn truncated_rem(a: int, m: int) -> int {
    if a >= 0 {
        a % m
    } else {
        -((-a) % m)
    }
}

/// An end angle that stands for `end` and is at most half a turn away from
/// `start`, both taken within one turn of zero.
pub open spec fn nearest_end(start: int, end: int) -> int {
    let d = start - end;
    if d > HALF_TURN + FULL_TURN {
        end + 2 * FULL_TURN
    } else if d > HALF_TURN {
        end + FULL_TURN
    } else if d < -(HALF_TURN + FULL_TURN) {
        end - 2 * FULL_TURN
    } else if d < -HALF_TURN {
        end - FULL_TURN
    } else {
        end
    }
}

/// The angle a share `u` of the shorter way round from `start_angle` to
/// `end_angle`, in degrees from zero up to a full turn.
pub open spec fn lerped_angle(start_angle: Scalar, end_angle: Scalar, u: Scalar) -> Scalar {
    let start = truncated_rem(start_angle as int, FULL_TURN as int);
    let end = nearest_end(start, truncated_rem(end_angle as int, FULL_TURN as int));
    (saturate(start + fixed_mul(end - start, u as int)) % (FULL_TURN as int)) as i32
}

/// `r` is the square root of `n`, rounded down.
pub open spec fn is_integer_sqrt(r: int, n: int) -> bool {
    r >= 0 && r * r <= n < (r + 1) * (r + 1)
}

/// The square root of `n`, rounded down.
pub open spec fn integer_sqrt(n: int) -> int {
    choose|r: int| is_integer_sqrt(r, n)
}

/// The distance between two points, rounded down to a scalar and kept inside
/// the scalar range.
pub open spec fn distance(x1: Scalar, y1: Scalar, x2: Scalar, y2: Scalar) -> Scalar {
    saturate(integer_sqrt((x2 - x1) * (x2 - x1) + (y2 - y1) * (y2 - y1))) as i32
}

/// Only one number is the square root of `n` rounded down.
pub proof fn lemma_integer_sqrt_unique(r: int, n: int)
    requires
        is_integer_sqrt(r, n),
    ensures
        integer_sqrt(n) == r,
{
    let s = integer_sqrt(n);
    assert(is_integer_sqrt(s, n));
    assert(r == s) by (nonlinear_arith)
        requires
            r >= 0,
            s >= 0,
            r * r <= n < (r + 1) * (r + 1),
            s * s <= n < (s + 1) * (s + 1),
    ;
}

/// Keeps `value` between `min` and `max`: below `min` it becomes `min`, else
/// above `max` it becomes `max`.
pub fn clamp(value: Scalar, min: Scalar, max: Scalar) -> (r: Scalar)
    ensures
        r == clamped(value, min, max),
{
    if value < min {
        min
    } else if value > max {
        max
    } else {
        value
    }
}

/// Goes a share `u` of the way from `v1` to `v2`. The share may lie outside
/// zero to one.
pub fn lerp(v1: Scalar, v2: Scalar, u: Scalar) -> (r: Scalar)
    ensures
        r == lerped(v1, v2, u),
{
    saturate_wide(v1 as i128 + mul_scaled(v2 as i128 - v1 as i128, u))
}

/// Going none of the way stays at the first value, and going all of the way
/// arrives at the second.
pub proof fn lemma_lerp_ends(v1: Scalar, v2: Scalar)
    ensures
        lerped(v1, v2, 0) == v1,
        lerped(v1, v2, UNIT) == v2,
{
    let d = v2 - v1;
    assert(d * 0 == 0) by (nonlinear_arith);
    assert(d * UNIT == 65536 * d) by (nonlinear_arith);
}

/// Between bounds that are in order, what is clamped lies between them, and
/// clamping it again changes nothing.
pub proof fn lemma_clamp_is_between(value: Scalar, min: Scalar, max: Scalar)
    requires
        min <= max,
    ensures
        min <= clamped(value, min, max) <= max,
        clamped(clamped(value, min, max), min, max) == clamped(value, min, max),
        min <= value <= max ==> clamped(value, min, max) == value,
{
}

/// Goes a share `u` of the way from the point `v1` to the point `v2`.
pub fn lerp_vec(v1: Point, v2: Point, u: Scalar) -> (r: Point)
    ensures
        r == (lerped(v1.0, v2.0, u), lerped(v1.1, v2.1, u)),
{
    (lerp(v1.0, v2.0, u), lerp(v1.1, v2.1, u))
}

/// The remainder of `a` by a full turn, with the sign of `a`.
fn rem_full_turn(a: Scalar) -> (r: i64)
    ensures
        r == truncated_rem(a as int, FULL_TURN as int),
        -(FULL_TURN as int) < r < FULL_TURN,
{
    if a >= 0 {
        (a as i64) % 23592960
    } else {
        -((-(a as i64)) % 23592960)
    }
}

/// Goes a share `u` of the way from one angle to another, the shorter way
/// round. Angles are in degrees; the result is from zero up to a full turn.
pub fn lerp_angle(start_angle: Scalar, end_angle: Scalar, u: Scalar) -> (r: Scalar)
    ensures
        r == lerped_angle(start_angle, end_angle, u),
        0 <= r < FULL_TURN,
{
    let temp_start: i64 = rem_full_turn(start_angle);
    let mut temp_end: i64 = rem_full_turn(end_angle);
    let ghost first_end = temp_end;
    while temp_start - temp_end > 11796480
        invariant
            -(FULL_TURN as int) < temp_start < FULL_TURN,
            -(FULL_TURN as int) < first_end < FULL_TURN,
            temp_end == first_end || temp_end == first_end + FULL_TURN || temp_end == first_end
                + 2 * FULL_TURN,
            temp_end != first_end ==> temp_start - temp_end > -(HALF_TURN as int),
            temp_start - first_end <= HALF_TURN + FULL_TURN ==> temp_end <= first_end + FULL_TURN,
            temp_start - first_end <= HALF_TURN ==> temp_end == first_end,
        decreases temp_start - temp_end + 4 * FULL_TURN,
    {
        temp_end += 23592960;
    }
    let ghost second_end = temp_end;
    while temp_start - temp_end < -11796480
        invariant
            -(FULL_TURN as int) < temp_start < FULL_TURN,
            -(FULL_TURN as int) < first_end < FULL_TURN,
            first_end <= second_end <= first_end + 2 * FULL_TURN,
            second_end == first_end || (temp_start - second_end > -(HALF_TURN as int)
                && temp_end == second_end),
            temp_end == second_end || temp_end == second_end - FULL_TURN || temp_end == second_end
                - 2 * FULL_TURN,
            temp_start - second_end >= -(HALF_TURN + FULL_TURN) ==> temp_end >= second_end
                - FULL_TURN,
            temp_start - second_end >= -(HALF_TURN as int) ==> temp_end == second_end,
            temp_end != second_end ==> temp_start - temp_end < HALF_TURN,
        decreases temp_end - temp_start + 4 * FULL_TURN,
    {
        temp_end -= 23592960;
    }
    assert(temp_end == nearest_end(temp_start as int, first_end as int));
    let between: i32 = saturate_wide(
        temp_start as i128 + mul_scaled(temp_end as i128 - temp_start as i128, u),
    );
    if between >= 0 {
        between % 23592960
    } else {
        let back: i32 = (-(between as i64) % 23592960) as i32;
        if back == 0 {
            0
        } else {
            23592960 - back
        }
    }
}

/// The square of a value of at most 34 bits stays inside 68 bits.
proof fn lemma_root_square_bound(v: int)
    by (nonlinear_arith)
    requires
        0 <= v <= 0x4_0000_0000,
    ensures
        0 <= v * v <= 0x10_0000_0000_0000_0000,
{
}

/// The square of a coordinate difference stays inside 64 bits.
proof fn lemma_difference_square_bound(v: int)
    by (nonlinear_arith)
    requires
        -0x1_0000_0000 < v < 0x1_0000_0000,
    ensures
        0 <= v * v < 0x1_0000_0000_0000_0000,
{
}

/// The square root of `n`, rounded down, found by halving the range.
fn floor_sqrt(n: u128) -> (r: u128)
    requires
        n < 0x2_0000_0000_0000_0000,
    ensures
        is_integer_sqrt(r as int, n as int),
        r < 0x2_0000_0000,
{
    let mut low: u128 = 0;
    let mut high: u128 = 0x2_0000_0000;
    assert(high * high == 0x4_0000_0000_0000_0000) by (nonlinear_arith)
        requires
            high == 0x2_0000_0000,
    ;
    assert(low * low == 0) by (nonlinear_arith)
        requires
            low == 0,
    ;
    while high - low > 1
        invariant
            low < high <= 0x2_0000_0000,
            low * low <= n < high * high,
        decreases high - low,
    {
        let mid: u128 = low + (high - low) / 2;
        proof {
            lemma_root_square_bound(mid as int);
        }
        if mid * mid <= n {
            low = mid;
        } else {
            high = mid;
        }
    }
    low
}

/// The distance between `(x1, y1)` and `(x2, y2)`, rounded down.
pub fn get_distance(x1: Scalar, y1: Scalar, x2: Scalar, y2: Scalar) -> (r: Scalar)
    ensures
        r == distance(x1, y1, x2, y2),
{
    let x: i128 = x2 as i128 - x1 as i128;
    let y: i128 = y2 as i128 - y1 as i128;
    proof {
        lemma_difference_square_bound(x as int);
        lemma_difference_square_bound(y as int);
    }
    let sum: u128 = (x * x + y * y) as u128;
    let root: u128 = floor_sqrt(sum);
    proof {
        lemma_integer_sqrt_unique(root as int, sum as int);
    }
    saturate_wide(root as i128)
}

/// The product of a coordinate difference with a scalar stays inside 64
/// bits.
proof fn lemma_offset_product_bound(a: int, b: int)
    by (nonlinear_arith)
    requires
        -0x1_0000_0000 <= a <= 0x1_0000_0000,
        -0x8000_0000 <= b <= 0x8000_0000,
    ensures
        -0x8000_0000_0000_0000 <= a * b <= 0x8000_0000_0000_0000,
{
}

/// Rounds a wide raw value to a whole number of hundredths.
fn round_to_hundredths(v: i128) -> (r: i128)
    requires
        -0x1_0000_0000_0000_0000 <= v <= 0x1_0000_0000_0000_0000,
    ensures
        r == rounded_to_hundredths(v as int),
{
    let hundredths: i128 = scale_down_wide(v * 100);
    let n: i128 = hundredths * 65536;
    if n >= 0 {
        (n + 50) / 100
    } else {
        -((-n + 50) / 100)
    }
}

/// Turns the point `(x, y)` about the centre `(cx, cy)` by `angle`, and
/// rounds each coordinate to hundredths.
pub fn rotate_point(x: Scalar, y: Scalar, cx: Scalar, cy: Scalar, angle: Rotation) -> (r: Point)
    ensures
        r == rotated_point(x, y, cx, cy, angle),
{
    let c: i128 = angle.cos as i128;
    let s: i128 = angle.sin as i128;
    // translate point back to origin:
    let temp_x: i128 = x as i128 - cx as i128;
    let temp_y: i128 = y as i128 - cy as i128;
    proof {
        lemma_offset_product_bound(temp_x as int, c as int);
        lemma_offset_product_bound(temp_y as int, s as int);
        lemma_offset_product_bound(temp_x as int, s as int);
        lemma_offset_product_bound(temp_y as int, c as int);
    }
    // rotate point
    let xnew: i128 = scale_down_wide(temp_x * c + temp_y * s) + cx as i128;
    let ynew: i128 = scale_down_wide(temp_y * c - temp_x * s) + cy as i128;
    (saturate_wide(round_to_hundredths(xnew)), saturate_wide(round_to_hundredths(ynew)))
}

/// A vector of the plane.
#[derive(Clone, Copy, Debug, PartialEq, Eq, Structural)]
pub struct Vec2 {
    /// The part along `x`.
    pub x: Scalar,
    /// The part along `y`.
    pub y: Scalar,
}

impl Vec2 {
    /// The length of the vector, rounded down.
    pub open spec fn spec_length(self) -> Scalar {
        distance(0, 0, self.x, self.y)
    }

    /// The dot product with `other`, rounded once and kept inside the scalar
    /// range.
    pub open spec fn spec_dot(self, other: Vec2) -> Scalar {
        saturate(scale_down(self.x * other.x + self.y * other.y)) as i32
    }

    /// The vector turned by `angle`, against the clock.
    pub open spec fn spec_rotated(self, angle: Rotation) -> Vec2 {
        Vec2 {
            x: saturate(scale_down(self.x * angle.cos - self.y * angle.sin)) as i32,
            y: saturate(scale_down(self.y * angle.cos + self.x * angle.sin)) as i32,
        }
    }

    /// The vector of length `radius` in the direction of `angle`.
    pub fn from_polar(angle: Rotation, radius: Scalar) -> (v: Vec2)
        ensures
            v == (Vec2 {
                x: saturating_product(radius, angle.cos),
                y: saturating_product(radius, angle.sin),
            }),
    {
        Vec2 { x: mul_saturating(radius, angle.cos), y: mul_saturating(radius, angle.sin) }
    }

    /// The two parts as a pair.
    pub fn as_tuple(&self) -> (pair: Point)
        ensures
            pair == (self.x, self.y),
    {
        (self.x, self.y)
    }

    /// The sum with `other`, part by part.
    pub fn plus(&self, other: Vec2) -> (v: Vec2)
        ensures
            v == (Vec2 {
                x: saturating_sum(self.x, other.x),
                y: saturating_sum(self.y, other.y),
            }),
    {
        Vec2 { x: add_saturating(self.x, other.x), y: add_saturating(self.y, other.y) }
    }

    /// The difference from `other`, part by part.
    pub fn minus(&self, other: Vec2) -> (v: Vec2)
        ensures
            v == (Vec2 {
                x: saturating_difference(self.x, other.x),
                y: saturating_difference(self.y, other.y),
            }),
    {
        Vec2 { x: sub_saturating(self.x, other.x), y: sub_saturating(self.y, other.y) }
    }

    /// The product with `other`, part by part.
    pub fn times(&self, other: Vec2) -> (v: Vec2)
        ensures
            v == (Vec2 {
                x: saturating_product(self.x, other.x),
                y: saturating_product(self.y, other.y),
            }),
    {
        Vec2 { x: mul_saturating(self.x, other.x), y: mul_saturating(self.y, other.y) }
    }

    /// The quotient by `other`, part by part.
    pub fn over(&self, other: Vec2) -> (v: Vec2)
        ensures
            v == (Vec2 {
                x: saturating_quotient(self.x, other.x),
                y: saturating_quotient(self.y, other.y),
            }),
    {
        Vec2 { x: div_saturating(self.x, other.x), y: div_saturating(self.y, other.y) }
    }

    /// The length of the vector, rounded down.
    pub fn length(&self) -> (r: Scalar)
        ensures
            r == self.spec_length(),
    {
        get_distance(0, 0, self.x, self.y)
    }

    /// The dot product with `other`.
    pub fn dot(&self, other: Vec2) -> (r: Scalar)
        ensures
            r == self.spec_dot(other),
    {
        proof {
            lemma_offset_product_bound(self.x as int, other.x as int);
            lemma_offset_product_bound(self.y as int, other.y as int);
        }
        saturate_wide(
            scale_down_wide(
                self.x as i128 * other.x as i128 + self.y as i128 * other.y as i128,
            ),
        )
    }

    /// The vector turned by `angle`, against the clock.
    pub fn rotated(&self, angle: Rotation) -> (v: Vec2)
        ensures
            v == self.spec_rotated(angle),
    {
        let cosine: i128 = angle.cos as i128;
        let sine: i128 = angle.sin as i128;
        proof {
            lemma_offset_product_bound(self.x as int, cosine as int);
            lemma_offset_product_bound(self.y as int, sine as int);
            lemma_offset_product_bound(self.y as int, cosine as int);
            lemma_offset_product_bound(self.x as int, sine as int);
        }
        Vec2 {
            x: saturate_wide(scale_down_wide(self.x as i128 * cosine - self.y as i128 * sine)),
            y: saturate_wide(scale_down_wide(self.y as i128 * cosine + self.x as i128 * sine)),
        }
    }
}

/// Draws a scalar from `low` up to, but not including, `high`, with
/// `rand::Rng::gen_range` on the generator that `rand::thread_rng` hands
/// out. That call panics on an empty range, so the range is not empty; of
/// what is drawn, only that it lies in the range is known.
#[verifier::external_body]
fn random_between(low: Scalar, high: Scalar) -> (r: Scalar)
    requires
        low < high,
    ensures
        low <= r < high,
{
    rand::thread_rng().gen_range(low..high)
}

/// A random point of the rectangle that has `bottom_left` as a corner and
/// reaches `width` to the right and `height` up. Where the rectangle would
/// leave the scalar range it ends there.
pub fn rand_in_rect(bottom_left: Point, width: Scalar, height: Scalar) -> (r: Point)
    requires
        width > 0,
        height > 0,
        bottom_left.0 < i32::MAX,
        bottom_left.1 < i32::MAX,
    ensures
        bottom_left.0 <= r.0 < saturating_sum(bottom_left.0, width),
        bottom_left.1 <= r.1 < saturating_sum(bottom_left.1, height),
{
    let random_x: Scalar = random_between(bottom_left.0, add_saturating(bottom_left.0, width));
    let random_y: Scalar = random_between(bottom_left.1, add_saturating(bottom_left.1, height));
    (random_x, random_y)
}

/// A random point of the segment from `pos1` to `pos2`, `pos2` itself left
/// out: the point at some share of the way, from zero up to one.
pub fn rand_on_line(pos1: Point, pos2: Point) -> (r: Point)
    ensures
        exists|u: Scalar|
            0 <= u < UNIT && r == (
                #[trigger] lerped(pos1.0, pos2.0, u),
                lerped(pos1.1, pos2.1, u),
            ),
{
    let u: Scalar = random_between(0, UNIT);
    lerp_vec(pos1, pos2, u)
}

/// A random angle in degrees, from zero up to a full turn.
pub fn rand_angle_360_deg() -> (r: Scalar)
    ensures
        0 <= r < FULL_TURN,
{
    random_between(0, FULL_TURN)
}

/// A random angle at most `half_angle_spread` away from `angle`: `angle`
/// plus some amount from minus the spread up to the spread.
pub fn rand_angle_spread_deg(angle: Scalar, half_angle_spread: Scalar) -> (r: Scalar)
    requires
        half_angle_spread > 0,
    ensures
        exists|s: Scalar|
            -half_angle_spread <= s < half_angle_spread && r == #[trigger] saturating_sum(
                angle,
                s,
            ),
{
    let s: Scalar = random_between(-half_angle_spread, half_angle_spread);
    add_saturating(angle, s)
}

/// A vector in the direction of `angle` with a random length from
/// `lo_magnitude` up to `hi_magnitude`.
pub fn rand_vec_magnitude(angle: Rotation, lo_magnitude: Scalar, hi_magnitude: Scalar) -> (r: Point)
    requires
        lo_magnitude < hi_magnitude,
    ensures
        exists|mag: Scalar|
            lo_magnitude <= mag < hi_magnitude && r == (
                #[trigger] saturating_product(mag, angle.cos),
                saturating_product(mag, angle.sin),
            ),
{
    let mag: Scalar = random_between(lo_magnitude, hi_magnitude);
    let vel = Vec2::from_polar(angle, mag);
    vel.as_tuple()
}

} // verus!
