use vstd::prelude::*;

use crate::traits::FiniteFloat;

verus! {

/// Number of integer units that represent the real value one.
pub const SCALE: i128 = 1_000_000_000_000;

/// Largest magnitude, in units, a well-formed scalar may hold; equal to
/// `MAX_COUNT * SCALE`, and small enough that every intermediate of the
/// arithmetic below fits in the backing integer type.
pub const MAX_UNITS: i128 = 1_000_000_000_000_000_000;

/// Largest integer count a scalar can hold exactly.
pub const MAX_COUNT: usize = 1_000_000;

/// Magnitude of a mathematical integer.
pub open spec fn mag(a: int) -> int {
    if a >= 0 {
        a
    } else {
        -a
    }
}

/// Truncating (round-toward-zero) integer division, the convention the
/// scalar arithmetic below follows.  Ghost `/` is Euclidean, so signs are
/// handled through magnitudes.
pub open spec fn tdiv(a: int, b: int) -> int {
    if (a >= 0) == (b >= 0) {
        mag(a) / mag(b)
    } else {
        -(mag(a) / mag(b))
    }
}

/// `u` rounded to the nearest multiple of `SCALE`, halves away from zero.
pub open spec fn round_units(u: int) -> int {
    if u >= 0 {
        ((u + SCALE / 2) / (SCALE as int)) * SCALE
    } else {
        -(((-u + SCALE / 2) / (SCALE as int)) * SCALE)
    }
}

/// A decimal fixed-point scalar standing for the real value
/// `units / SCALE`.
///
/// It implements [`FiniteFloat`], giving the quantizers one fully
/// specified scalar: addition and subtraction are exact, multiplication
/// and division truncate their result toward zero at the scale's
/// resolution, and rounding sends halves away from zero.
#[derive(Debug, Clone, Copy, PartialEq, Eq, Structural, PartialOrd, Ord)]
pub struct PseudoFloat {
    pub units: i128,
}

impl PseudoFloat {
    /// The scalar equal to the integer `w`.
    pub fn from_int(w: i64) -> (r: Self)
        requires
            -(MAX_COUNT as int) <= w <= MAX_COUNT as int,
        ensures
            r.units == w * SCALE,
            r.wf(),
    {
        PseudoFloat { units: (w as i128) * SCALE }
    }

    /// The scalar nearest `num / den` from below in magnitude (exact
    /// whenever `den` divides `num * SCALE`, so for any decimal literal
    /// of at most twelve fractional digits).
    pub fn from_ratio(num: i64, den: i64) -> (r: Self)
        requires
            den != 0,
            mag(tdiv(num * SCALE, den as int)) <= MAX_UNITS,
        ensures
            r.units == tdiv(num * SCALE, den as int),
            r.wf(),
    {
        let nm: u128 = if num >= 0 {
            num as u128
        } else {
            ((-(num as i128)) as u128)
        };
        let dm: u128 = if den >= 0 {
            den as u128
        } else {
            ((-(den as i128)) as u128)
        };
        let q: u128 = nm * (SCALE as u128) / dm;
        let qi = q as i128;
        if (num >= 0) == (den >= 0) {
            PseudoFloat { units: qi }
        } else {
            PseudoFloat { units: -qi }
        }
    }
}

impl FiniteFloat for PseudoFloat {
    open spec fn wf(self) -> bool {
        -MAX_UNITS <= self.units <= MAX_UNITS
    }

    open spec fn spec_add(self, other: Self) -> Self {
        PseudoFloat { units: (self.units + other.units) as i128 }
    }

    open spec fn can_add(self, other: Self) -> bool {
        mag(self.units + other.units) <= MAX_UNITS
    }

    open spec fn spec_sub(self, other: Self) -> Self {
        PseudoFloat { units: (self.units - other.units) as i128 }
    }

    open spec fn can_sub(self, other: Self) -> bool {
        mag(self.units - other.units) <= MAX_UNITS
    }

    open spec fn spec_mul(self, other: Self) -> Self {
        PseudoFloat { units: tdiv(self.units * other.units, SCALE as int) as i128 }
    }

    open spec fn can_mul(self, other: Self) -> bool {
        mag(tdiv(self.units * other.units, SCALE as int)) <= MAX_UNITS
    }

    open spec fn spec_div(self, other: Self) -> Self {
        PseudoFloat { units: tdiv(self.units * SCALE, other.units as int) as i128 }
    }

    open spec fn can_div(self, other: Self) -> bool {
        other.units != 0 && mag(tdiv(self.units * SCALE, other.units as int)) <= MAX_UNITS
    }

    open spec fn spec_round(self) -> Self {
        PseudoFloat { units: round_units(self.units as int) as i128 }
    }

    open spec fn spec_round_ieee754(self) -> usize {
        if self.units < 0 {
            0
        } else {
            ((self.units as int) / (SCALE as int)) as usize
        }
    }

    open spec fn spec_to_usize(self) -> usize {
        if self.units < 0 {
            0
        } else {
            ((self.units as int) / (SCALE as int)) as usize
        }
    }

    open spec fn spec_from_usize(n: usize) -> Self {
        PseudoFloat { units: ((n as int) * SCALE) as i128 }
    }

    open spec fn can_from_usize(n: usize) -> bool {
        n <= MAX_COUNT
    }

    open spec fn spec_is_zero(self) -> bool {
        self.units == 0
    }

    fn add(self, other: Self) -> (r: Self) {
        PseudoFloat { units: self.units + other.units }
    }

    fn sub(self, other: Self) -> (r: Self) {
        PseudoFloat { units: self.units - other.units }
    }

    fn mul(self, other: Self) -> (r: Self) {
        let xm: u128 = if self.units >= 0 {
            self.units as u128
        } else {
            (-self.units) as u128
        };
        let ym: u128 = if other.units >= 0 {
            other.units as u128
        } else {
            (-other.units) as u128
        };
        proof {
            lemma_mag_mul(self.units as int, other.units as int);
            assert(xm * ym <= (MAX_UNITS as int) * (MAX_UNITS as int)) by (nonlinear_arith)
                requires
                    xm <= MAX_UNITS as int,
                    ym <= MAX_UNITS as int,
            ;
        }
        let q: u128 = (xm * ym) / (SCALE as u128);
        let qi = q as i128;
        if (self.units >= 0) == (other.units >= 0) {
            PseudoFloat { units: qi }
        } else {
            PseudoFloat { units: -qi }
        }
    }

    fn div(self, other: Self) -> (r: Self) {
        let xm: u128 = if self.units >= 0 {
            self.units as u128
        } else {
            (-self.units) as u128
        };
        let ym: u128 = if other.units >= 0 {
            other.units as u128
        } else {
            (-other.units) as u128
        };
        let q: u128 = (xm * (SCALE as u128)) / ym;
        let qi = q as i128;
        if (self.units >= 0) == (other.units >= 0) {
            PseudoFloat { units: qi }
        } else {
            PseudoFloat { units: -qi }
        }
    }

    fn round(self) -> (r: Self) {
        let xm: u128 = if self.units >= 0 {
            self.units as u128
        } else {
            (-self.units) as u128
        };
        let q: u128 = (xm + (SCALE as u128) / 2) / (SCALE as u128);
        let m: u128 = q * (SCALE as u128);
        proof {
            assert((MAX_UNITS + SCALE / 2) / (SCALE as int) == MAX_COUNT as int);
            vstd::arithmetic::div_mod::lemma_div_is_ordered(
                xm + SCALE / 2,
                MAX_UNITS + SCALE / 2,
                SCALE as int,
            );
        }
        let mi = m as i128;
        if self.units >= 0 {
            PseudoFloat { units: mi }
        } else {
            PseudoFloat { units: -mi }
        }
    }

    fn round_ieee754(self) -> (r: usize) {
        if self.units < 0 {
            0
        } else {
            ((self.units as u128) / (SCALE as u128)) as usize
        }
    }

    fn to_usize(self) -> (r: usize) {
        if self.units < 0 {
            0
        } else {
            ((self.units as u128) / (SCALE as u128)) as usize
        }
    }

    fn from_usize(n: usize) -> (r: Self) {
        PseudoFloat { units: (n as i128) * SCALE }
    }

    fn is_zero(self) -> (r: bool) {
        self.units == 0
    }

    proof fn from_usize_zero_is_zero() {
    }
}

/// A sufficient condition for division, dischargeable by linear
/// arithmetic: the dividend, scaled, stays within range times the
/// divisor's magnitude.
pub proof fn lemma_can_div_bound(x: PseudoFloat, y: PseudoFloat)
    requires
        y.units != 0,
        mag(x.units as int) * SCALE <= MAX_UNITS * mag(y.units as int),
    ensures
        x.can_div(y),
{
    let xm = mag(x.units as int);
    let ym = mag(y.units as int);
    lemma_mag_mul(x.units as int, SCALE as int);
    vstd::arithmetic::div_mod::lemma_multiply_divide_le(xm * SCALE, ym, MAX_UNITS as int);
    assert(mag(tdiv(x.units * SCALE, y.units as int)) == (xm * SCALE) / ym);
}

/// A sufficient condition for multiplication, dischargeable by linear
/// arithmetic: the product of the magnitudes stays within range times
/// the scale.
pub proof fn lemma_can_mul_bound(x: PseudoFloat, y: PseudoFloat)
    requires
        mag(x.units as int) * mag(y.units as int) <= MAX_UNITS * SCALE,
    ensures
        x.can_mul(y),
{
    let xm = mag(x.units as int);
    let ym = mag(y.units as int);
    lemma_mag_mul(x.units as int, y.units as int);
    vstd::arithmetic::div_mod::lemma_multiply_divide_le(xm * ym, SCALE as int, MAX_UNITS as int);
    assert(mag(tdiv(x.units * y.units, SCALE as int)) == (xm * ym) / (SCALE as int));
}

/// The magnitude of a product is the product of the magnitudes.
pub proof fn lemma_mag_mul(x: int, y: int)
    ensures
        mag(x * y) == mag(x) * mag(y),
        ((x >= 0) == (y >= 0)) ==> x * y >= 0,
        ((x >= 0) != (y >= 0)) ==> x * y <= 0,
{
    if x >= 0 {
        if y >= 0 {
            assert(x * y >= 0) by (nonlinear_arith)
                requires
                    x >= 0,
                    y >= 0,
            ;
        } else {
            assert(x * y <= 0 && x * y == -(x * (-y))) by (nonlinear_arith)
                requires
                    x >= 0,
                    y < 0,
            ;
        }
    } else {
        if y >= 0 {
            assert(x * y <= 0 && x * y == -((-x) * y)) by (nonlinear_arith)
                requires
                    x < 0,
                    y >= 0,
            ;
        } else {
            assert(x * y >= 0 && x * y == (-x) * (-y)) by (nonlinear_arith)
                requires
                    x < 0,
                    y < 0,
            ;
        }
    }
}

} // verus!
