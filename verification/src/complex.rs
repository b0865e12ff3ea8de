//! A complex number in fixed-point form: both parts are integers carrying an
//! implicit decimal scale, so every operation is exact integer arithmetic.

use vstd::prelude::*;

verus! {

/// A complex number with integer real part `x` and imaginary part `y`.
///
/// The parts are 64-bit so that the squaring performed by the escape-time
/// iteration (values up to about `10^6` before scaling, about `10^12` in an
/// intermediate product) stays far away from the native range limits.
#[derive(Clone, Copy, Debug, PartialEq, Eq, Structural)]
pub struct Complex {
    pub x: i64,
    pub y: i64,
}

/// The failure conditions of the fixed-point arithmetic: a rescale by zero,
/// or a result that does not fit the 64-bit parts.
#[derive(Clone, Copy, Debug, PartialEq, Eq, Structural)]
pub enum FractalError {
    DivisionByZero,
    Overflow,
}

impl View for Complex {
    type V = (int, int);

    open spec fn view(&self) -> (int, int) {
        (self.x as int, self.y as int)
    }
}

/// Componentwise sum of two complex values.
pub open spec fn complex_sum(a: (int, int), b: (int, int)) -> (int, int) {
    (a.0 + b.0, a.1 + b.1)
}

/// The standard complex multiplication rule.
pub open spec fn complex_product(a: (int, int), b: (int, int)) -> (int, int) {
    (a.0 * b.0 - a.1 * b.1, a.0 * b.1 + a.1 * b.0)
}

/// Integer division truncating toward zero, the semantics of native `/`.
pub open spec fn div_trunc(a: int, d: int) -> int
    recommends
        d != 0,
{
    if a >= 0 && d > 0 {
        a / d
    } else if a <= 0 && d < 0 {
        (-a) / (-d)
    } else if a < 0 && d > 0 {
        -((-a) / d)
    } else {
        -(a / (-d))
    }
}

/// Whether both components lie in the range of the 64-bit parts.
pub open spec fn within_i64(v: (int, int)) -> bool {
    &&& i64::MIN <= v.0 <= i64::MAX
    &&& i64::MIN <= v.1 <= i64::MAX
}

/// The product of two values from the 64-bit range stays well inside the
/// 128-bit range used for the intermediate products of `multiply`.
proof fn lemma_i64_product_bounds(a: int, b: int)
    requires
        i64::MIN <= a <= i64::MAX,
        i64::MIN <= b <= i64::MAX,
    ensures
        -0x3fff_ffff_ffff_ffff_8000_0000_0000_0000 <= a * b
            <= 0x4000_0000_0000_0000_0000_0000_0000_0000,
{
    assert(-0x3fff_ffff_ffff_ffff_8000_0000_0000_0000 <= a * b
        <= 0x4000_0000_0000_0000_0000_0000_0000_0000) by (nonlinear_arith)
        requires
            i64::MIN <= a <= i64::MAX,
            i64::MIN <= b <= i64::MAX,
    ;
}

impl Complex {
    /// Componentwise sum. The caller keeps both sums inside the native
    /// range; offsets below about `10^9` per part are always safe here.
    pub fn add(self, rhs: Complex) -> (r: Complex)
        requires
            within_i64(complex_sum(self@, rhs@)),
        ensures
            r@ == complex_sum(self@, rhs@),
    {
        Complex { x: self.x + rhs.x, y: self.y + rhs.y }
    }

    /// Complex multiplication. The intermediate products are taken at
    /// 128 bits, so the only failure is a result outside the 64-bit parts,
    /// which is reported rather than silently wrapped.
    pub fn multiply(self, rhs: Complex) -> (r: Result<Complex, FractalError>)
        ensures
            within_i64(complex_product(self@, rhs@)) ==> (r matches Ok(v)
                && v@ == complex_product(self@, rhs@)),
            !within_i64(complex_product(self@, rhs@)) ==> r == Err::<
                Complex,
                FractalError,
            >(FractalError::Overflow),
    {
        let ax = self.x as i128;
        let ay = self.y as i128;
        let bx = rhs.x as i128;
        let by = rhs.y as i128;
        proof {
            lemma_i64_product_bounds(ax as int, bx as int);
            lemma_i64_product_bounds(ay as int, by as int);
            lemma_i64_product_bounds(ax as int, by as int);
            lemma_i64_product_bounds(ay as int, bx as int);
        }
        let px = ax * bx - ay * by;
        match (ax * by).checked_add(ay * bx) {
            Some(py) => {
                if i64::MIN as i128 <= px && px <= i64::MAX as i128 && i64::MIN as i128 <= py && py
                    <= i64::MAX as i128 {
                    Ok(Complex { x: px as i64, y: py as i64 })
                } else {
                    Err(FractalError::Overflow)
                }
            },
            None => Err(FractalError::Overflow),
        }
    }

    /// Componentwise truncating division of both parts by `divisor`: a
    /// fixed-point rescale, deliberately not a complex division. A zero
    /// divisor is rejected; so is the one quotient that leaves the 64-bit
    /// range (the least part divided by minus one).
    pub fn scale_divide(self, divisor: i64) -> (r: Result<Complex, FractalError>)
        ensures
            divisor == 0 ==> r == Err::<Complex, FractalError>(FractalError::DivisionByZero),
            divisor != 0 && within_i64(
                (div_trunc(self.x as int, divisor as int), div_trunc(self.y as int, divisor as int)),
            ) ==> (r matches Ok(v) && v@ == (
                div_trunc(self.x as int, divisor as int),
                div_trunc(self.y as int, divisor as int),
            )),
            divisor != 0 && !within_i64(
                (div_trunc(self.x as int, divisor as int), div_trunc(self.y as int, divisor as int)),
            ) ==> r == Err::<Complex, FractalError>(FractalError::Overflow),
    {
        if divisor == 0 {
            return Err(FractalError::DivisionByZero);
        }
        let qx = self.x.checked_div(divisor);
        let qy = self.y.checked_div(divisor);
        match (qx, qy) {
            (Some(x), Some(y)) => Ok(Complex { x, y }),
            _ => Err(FractalError::Overflow),
        }
    }
}

} // verus!
