use vstd::prelude::*;

verus! {

/// A scalar of the library: a signed fixed-point number with sixteen
/// fractional bits, held as its raw 32-bit integer.
pub type Scalar = i32;

/// A point of the plane, as its two coordinates `(x, y)`.
pub type Point = (Scalar, Scalar);

/// The raw value of the scalar one.
pub const UNIT: i32 = 65536;

/// Half of [`UNIT`]: what is added before a product is scaled back, so that
/// it is rounded to the nearest scalar.
pub const HALF_UNIT: i32 = 32768;

/// The scalar nearest to `v`: `v` itself where it fits, else the end of the
/// scalar range on `v`'s side.
pub open spec fn saturate(v: int) -> int {
    if v < i32::MIN {
        i32::MIN as int
    } else if v > i32::MAX {
        i32::MAX as int
    } else {
        v
    }
}

/// `n / UNIT`, rounded to the nearest integer, a tie away from zero.
pub open spec fn scale_down(n: int) -> int {
    if n >= 0 {
        (n + HALF_UNIT) / (UNIT as int)
    } else {
        -((-n + HALF_UNIT) / (UNIT as int))
    }
}

/// The exact product of two raw scalars, scaled back to a raw scalar and
/// rounded, before any saturation.
pub open spec fn fixed_mul(a: int, b: int) -> int {
    scale_down(a * b)
}

/// Brings a wide intermediate value back into the scalar range.
pub fn saturate_wide(v: i128) -> (r: i32)
    ensures
        r == saturate(v as int),
{
    if v < -2147483648 {
        i32::MIN
    } else if v > 2147483647 {
        i32::MAX
    } else {
        v as i32
    }
}

/// Scales a wide product back by [`UNIT`], rounding to nearest.
pub(crate) fn scale_down_wide(n: i128) -> (r: i128)
    requires
        -0x1_0000_0000_0000_0000_0000_0000 <= n <= 0x1_0000_0000_0000_0000_0000_0000,
    ensures
        r == scale_down(n as int),
        n >= 0 ==> 0 <= r <= n / 65536 + 1,
        n <= 0 ==> -(-n / 65536) - 1 <= r <= 0,
{
    if n >= 0 {
        (n + 32768) / 65536
    } else {
        -((-n + 32768) / 65536)
    }
}

/// The product of a value of at most 64 bits with a scalar stays inside 96
/// bits.
proof fn lemma_scalar_product_bound(a: int, b: int)
    by (nonlinear_arith)
    requires
        -0x1_0000_0000_0000_0000 <= a <= 0x1_0000_0000_0000_0000,
        -0x8000_0000 <= b <= 0x8000_0000,
    ensures
        -0x8000_0000_0000_0000_0000_0000 <= a * b <= 0x8000_0000_0000_0000_0000_0000,
{
}

/// Multiplies a wide value by a scalar factor and scales the product back.
pub(crate) fn mul_scaled(a: i128, factor: i32) -> (r: i128)
    requires
        -0x1_0000_0000_0000_0000 <= a <= 0x1_0000_0000_0000_0000,
    ensures
        r == fixed_mul(a as int, factor as int),
        -0x1_0000_0000_0000_0000_0000 <= r <= 0x1_0000_0000_0000_0000_0000,
{
    proof {
        lemma_scalar_product_bound(a as int, factor as int);
    }
    scale_down_wide(a * (factor as i128))
}

/// The sum of two scalars, kept inside the scalar range.
pub open spec fn saturating_sum(a: Scalar, b: Scalar) -> Scalar {
    saturate(a + b) as i32
}

/// The difference of two scalars, kept inside the scalar range.
pub open spec fn saturating_difference(a: Scalar, b: Scalar) -> Scalar {
    saturate(a - b) as i32
}

/// The product of two scalars, kept inside the scalar range.
pub open spec fn saturating_product(a: Scalar, b: Scalar) -> Scalar {
    saturate(fixed_mul(a as int, b as int)) as i32
}

/// The magnitude of an integer.
pub open spec fn magnitude(v: int) -> int {
    if v < 0 {
        -v
    } else {
        v
    }
}

/// The quotient of two raw scalars as a raw scalar, rounded to the nearest
/// integer, a tie away from zero, before any saturation. The divisor is not
/// zero.
pub open spec fn fixed_div(a: int, b: int) -> int {
    let q = (2 * magnitude(a) * UNIT + magnitude(b)) / (2 * magnitude(b));
    if (a < 0) == (b < 0) {
        q
    } else {
        -q
    }
}

/// The quotient of two scalars, kept inside the scalar range. A division by
/// zero gives the end of the range on the dividend's side, and zero for
/// zero by zero.
pub open spec fn saturating_quotient(a: Scalar, b: Scalar) -> Scalar {
    if b == 0 {
        if a > 0 {
            i32::MAX
        } else if a < 0 {
            i32::MIN
        } else {
            0
        }
    } else {
        saturate(fixed_div(a as int, b as int)) as i32
    }
}

/// Adds two scalars; a sum beyond the scalar range stops at its end.
pub fn add_saturating(a: Scalar, b: Scalar) -> (r: Scalar)
    ensures
        r == saturating_sum(a, b),
{
    saturate_wide(a as i128 + b as i128)
}

/// Subtracts two scalars; a difference beyond the scalar range stops at its
/// end.
pub fn sub_saturating(a: Scalar, b: Scalar) -> (r: Scalar)
    ensures
        r == saturating_difference(a, b),
{
    saturate_wide(a as i128 - b as i128)
}

/// Multiplies two scalars; a product beyond the scalar range stops at its
/// end.
pub fn mul_saturating(a: Scalar, b: Scalar) -> (r: Scalar)
    ensures
        r == saturating_product(a, b),
{
    saturate_wide(mul_scaled(a as i128, b))
}

/// Divides two scalars; a quotient beyond the scalar range stops at its end,
/// and so does a division by zero.
pub fn div_saturating(a: Scalar, b: Scalar) -> (r: Scalar)
    ensures
        r == saturating_quotient(a, b),
{
    if b == 0 {
        if a > 0 {
            i32::MAX
        } else if a < 0 {
            i32::MIN
        } else {
            0
        }
    } else {
        let wide_a: i128 = if a < 0 { -(a as i128) } else { a as i128 };
        let wide_b: i128 = if b < 0 { -(b as i128) } else { b as i128 };
        let q: i128 = (2 * wide_a * 65536 + wide_b) / (2 * wide_b);
        if (a < 0) == (b < 0) {
            saturate_wide(q)
        } else {
            saturate_wide(-q)
        }
    }
}

} // verus!
