//! The escape-time evaluator: iterate the fixed map `z <- (z*z)/scale + offset`
//! from zero and report how many steps run before the magnitude bound is
//! exceeded, or the depth limit if it never is.

use vstd::math::abs;
use vstd::pervasive::unreached;
use vstd::prelude::*;
use crate::complex::{
    Complex, FractalError, complex_product, complex_sum, div_trunc, within_i64,
};

verus! {

/// A point escapes once the larger of its parts' magnitudes exceeds this,
/// expressed in the same fixed-point scale as the inputs.
pub const ESCAPE_BOUND: i64 = 1_000_000;

/// The fixed-point scale of the engraving classification.
pub const ENGRAVING_SCALE: i64 = 100_000;

/// The largest offset magnitude, per part, that the evaluator accepts: far
/// below what the 64-bit parts could wrap on during one iteration step.
pub const SAFE_OFFSET: i64 = 1_000_000_000;

/// One step of the iterated map: square, rescale both parts by truncating
/// division, then add the offset.
pub open spec fn escape_step(z: (int, int), offset: (int, int), scale: int) -> (int, int) {
    let m = complex_product(z, z);
    complex_sum((div_trunc(m.0, scale), div_trunc(m.1, scale)), offset)
}

/// The value of the iterated map after `n` steps, starting from zero.
pub open spec fn iterate(offset: (int, int), scale: int, n: nat) -> (int, int)
    decreases n,
{
    if n == 0 {
        (0int, 0int)
    } else {
        escape_step(iterate(offset, scale, (n - 1) as nat), offset, scale)
    }
}

/// Whether a value has escaped: the larger of the two magnitudes exceeds
/// the bound.
pub open spec fn escaped(z: (int, int)) -> bool {
    abs(z.0) > ESCAPE_BOUND || abs(z.1) > ESCAPE_BOUND
}

/// `r` is the escape depth of `offset` under the limit `d`: the number of
/// steps that ran before the first escaping value appeared, capped at `d`.
/// No two distinct `r` satisfy this for the same inputs.
pub open spec fn is_escape_depth(offset: (int, int), scale: int, d: int, r: int) -> bool {
    &&& 0 <= r <= d
    &&& r < d ==> escaped(iterate(offset, scale, (r + 1) as nat))
    &&& forall|k: nat| 1 <= k <= r ==> !escaped(iterate(offset, scale, k))
}

/// A point is deep when it never escapes within 100 steps at the
/// engraving scale.
pub open spec fn deep_point(offset: (int, int)) -> bool {
    forall|k: nat| 1 <= k <= 100 ==> !escaped(iterate(offset, ENGRAVING_SCALE as int, k))
}

/// Truncating division by a positive divisor never grows the magnitude.
proof fn lemma_div_trunc_magnitude(a: int, d: int)
    requires
        d >= 1,
    ensures
        abs(div_trunc(a, d)) <= abs(a),
{
    if a >= 0 {
        assert(0 <= a / d <= a) by (nonlinear_arith)
            requires
                a >= 0,
                d >= 1,
        ;
    } else {
        assert(0 <= (-a) / d <= -a) by (nonlinear_arith)
            requires
                a < 0,
                d >= 1,
        ;
    }
}

/// Squaring a non-escaped value keeps both intermediate products of the
/// multiplication rule within two trillion, far inside the 64-bit range.
proof fn lemma_square_bounds(zx: int, zy: int)
    requires
        abs(zx) <= ESCAPE_BOUND,
        abs(zy) <= ESCAPE_BOUND,
    ensures
        -2_000_000_000_000 <= zx * zx - zy * zy <= 2_000_000_000_000,
        -2_000_000_000_000 <= zx * zy + zy * zx <= 2_000_000_000_000,
{
    assert(-2_000_000_000_000 <= zx * zx - zy * zy <= 2_000_000_000_000 && -2_000_000_000_000 <= zx
        * zy + zy * zx <= 2_000_000_000_000) by (nonlinear_arith)
        requires
            -1_000_000 <= zx <= 1_000_000,
            -1_000_000 <= zy <= 1_000_000,
    ;
}

/// The escape depth of `offset` under the limit `max_depth`, at the given
/// fixed-point scale: the index of the step whose result first breached the
/// bound, or `max_depth` if no step did. A pure function of its inputs.
pub fn escape_depth(offset: Complex, max_depth: i32, scale: i64) -> (r: i32)
    requires
        max_depth >= 0,
        scale >= 1,
        -SAFE_OFFSET <= offset.x <= SAFE_OFFSET,
        -SAFE_OFFSET <= offset.y <= SAFE_OFFSET,
    ensures
        0 <= r <= max_depth,
        is_escape_depth(offset@, scale as int, max_depth as int, r as int),
{
    let mut z = Complex { x: 0, y: 0 };
    let mut i: i32 = 0;
    while i < max_depth
        invariant
            0 <= i <= max_depth,
            scale >= 1,
            -SAFE_OFFSET <= offset.x <= SAFE_OFFSET,
            -SAFE_OFFSET <= offset.y <= SAFE_OFFSET,
            z@ == iterate(offset@, scale as int, i as nat),
            forall|k: nat| 1 <= k <= i ==> !escaped(iterate(offset@, scale as int, k)),
        decreases max_depth - i,
    {
        proof {
            if i > 0 {
                assert(!escaped(iterate(offset@, scale as int, i as nat)));
            }
            assert(abs(z.x as int) <= ESCAPE_BOUND && abs(z.y as int) <= ESCAPE_BOUND);
            lemma_square_bounds(z.x as int, z.y as int);
            lemma_div_trunc_magnitude(z.x * z.x - z.y * z.y, scale as int);
            lemma_div_trunc_magnitude(z.x * z.y + z.y * z.x, scale as int);
        }
        let m = match z.multiply(z) {
            Ok(m) => m,
            Err(_) => unreached(),
        };
        let s = match m.scale_divide(scale) {
            Ok(s) => s,
            Err(_) => unreached(),
        };
        z = s.add(offset);
        proof {
            assert(z@ == iterate(offset@, scale as int, (i + 1) as nat));
        }
        if z.x > ESCAPE_BOUND || z.x < -ESCAPE_BOUND || z.y > ESCAPE_BOUND || z.y < -ESCAPE_BOUND {
            return i;
        }
        i = i + 1;
    }
    max_depth
}

/// The escape depth of `point` at the engraving scale.
pub fn engraving_depth(point: Complex, max_depth: i32) -> (r: i32)
    requires
        max_depth >= 0,
        -SAFE_OFFSET <= point.x <= SAFE_OFFSET,
        -SAFE_OFFSET <= point.y <= SAFE_OFFSET,
    ensures
        0 <= r <= max_depth,
        is_escape_depth(point@, ENGRAVING_SCALE as int, max_depth as int, r as int),
{
    escape_depth(point, max_depth, ENGRAVING_SCALE)
}

/// Whether `point` is to be engraved: it does not escape within 100 steps
/// at the engraving scale.
pub fn to_engrave(point: Complex) -> (r: bool)
    requires
        -SAFE_OFFSET <= point.x <= SAFE_OFFSET,
        -SAFE_OFFSET <= point.y <= SAFE_OFFSET,
    ensures
        r == deep_point(point@),
{
    let d = engraving_depth(point, 100);
    proof {
        if d < 100 {
            assert(escaped(iterate(point@, ENGRAVING_SCALE as int, (d + 1) as nat)));
            assert(!deep_point(point@));
        }
    }
    d >= 100
}

/// One step of the map can be taken from `z` on 64-bit parts: the squaring
/// stays inside the range, and so does the step's result.
pub open spec fn step_fits(z: (int, int), offset: (int, int), scale: int) -> bool {
    &&& within_i64(complex_product(z, z))
    &&& within_i64(escape_step(z, offset, scale))
}

/// Runs the body of the evaluator `steps` times unconditionally, with no
/// escape check, and returns the final value. Reports an overflow instead of
/// wrapping when some step leaves the 64-bit range.
pub fn run_iterations(offset: Complex, steps: u32, scale: i64) -> (r: Result<Complex, FractalError>)
    requires
        scale >= 1,
    ensures
        (forall|k: nat| k < steps ==> step_fits(iterate(offset@, scale as int, k), offset@, scale as int))
            <==> r is Ok,
        r matches Ok(v) ==> v@ == iterate(offset@, scale as int, steps as nat),
        r is Err ==> r == Err::<Complex, FractalError>(FractalError::Overflow),
{
    let mut z = Complex { x: 0, y: 0 };
    let mut k: u32 = 0;
    while k < steps
        invariant
            0 <= k <= steps,
            scale >= 1,
            z@ == iterate(offset@, scale as int, k as nat),
            forall|j: nat| j < k ==> step_fits(
                iterate(offset@, scale as int, j),
                offset@,
                scale as int,
            ),
        decreases steps - k,
    {
        let m = match z.multiply(z) {
            Ok(m) => m,
            Err(_) => {
                proof {
                    assert(!step_fits(iterate(offset@, scale as int, k as nat), offset@, scale as int));
                }
                return Err(FractalError::Overflow);
            },
        };
        proof {
            lemma_div_trunc_magnitude(m.x as int, scale as int);
            lemma_div_trunc_magnitude(m.y as int, scale as int);
        }
        let s = match m.scale_divide(scale) {
            Ok(s) => s,
            Err(_) => unreached(),
        };
        let sx = s.x as i128 + offset.x as i128;
        let sy = s.y as i128 + offset.y as i128;
        if sx < i64::MIN as i128 || sx > i64::MAX as i128 || sy < i64::MIN as i128 || sy
            > i64::MAX as i128 {
            proof {
                assert(!step_fits(iterate(offset@, scale as int, k as nat), offset@, scale as int));
            }
            return Err(FractalError::Overflow);
        }
        z = s.add(offset);
        proof {
            assert(z@ == iterate(offset@, scale as int, (k + 1) as nat));
        }
        k = k + 1;
    }
    Ok(z)
}

/// The escape depth is a function of its inputs: two results for the same
/// offset, scale and limit are the same result.
pub proof fn lemma_escape_depth_unique(offset: (int, int), scale: int, d: int, r1: int, r2: int)
    requires
        is_escape_depth(offset, scale, d, r1),
        is_escape_depth(offset, scale, d, r2),
    ensures
        r1 == r2,
{
    if r1 < r2 {
        assert(escaped(iterate(offset, scale, (r1 + 1) as nat)));
        assert(!escaped(iterate(offset, scale, (r1 + 1) as nat)));
    }
    if r2 < r1 {
        assert(escaped(iterate(offset, scale, (r2 + 1) as nat)));
        assert(!escaped(iterate(offset, scale, (r2 + 1) as nat)));
    }
}

/// Saturation is monotonic: a point that has not escaped under the limit
/// `d1` cannot report a depth below `d1` under any larger limit, since the
/// prefix of iterations is the same.
pub proof fn lemma_monotonic_saturation(offset: (int, int), scale: int, d1: int, d2: int, r2: int)
    requires
        0 <= d1 <= d2,
        is_escape_depth(offset, scale, d1, d1),
        is_escape_depth(offset, scale, d2, r2),
    ensures
        r2 >= d1,
{
    if r2 < d1 {
        assert(escaped(iterate(offset, scale, (r2 + 1) as nat)));
        assert(!escaped(iterate(offset, scale, (r2 + 1) as nat)));
    }
}

/// Starting from the zero offset, every iterate is zero.
proof fn lemma_iterate_zero_offset(scale: int, n: nat)
    requires
        scale >= 1,
    ensures
        iterate((0int, 0int), scale, n) == (0int, 0int),
    decreases n,
{
    if n > 0 {
        lemma_iterate_zero_offset(scale, (n - 1) as nat);
    }
}

/// The zero offset never escapes: its escape depth is always the limit.
pub proof fn lemma_zero_offset_saturates(scale: int, d: int, r: int)
    requires
        scale >= 1,
        d >= 0,
        is_escape_depth((0int, 0int), scale, d, r),
    ensures
        r == d,
{
    assert forall|k: nat| 1 <= k <= d implies !escaped(
        iterate((0int, 0int), scale, k),
    ) by {
        lemma_iterate_zero_offset(scale, k);
    }
    if r < d {
        lemma_iterate_zero_offset(scale, (r + 1) as nat);
    }
}

} // verus!

