//! 16.16 signed fixed-point arithmetic.
//!
//! A coordinate or color channel is stored as an `i64` holding the real
//! value times [`SCALE`]. Every operation is total: intermediate math is
//! done in `i128`, quotients truncate toward zero, and results saturate
//! at the `i64` range, so each operation has an exact description as a
//! function on the stored integers.

use vstd::prelude::*;
use vstd::arithmetic::div_mod::{lemma_div_nonincreasing, lemma_div_is_ordered};

verus! {

/// Number of steps per unit: values carry 16 fractional bits.
pub const SCALE: i64 = 65536;

/// Bound used when saturating wide (`i128`) intermediate sums; equals
/// two to the 126th power, comfortably above any product of two `i64`s
/// while staying clear of the `i128` limits.
pub const WIDE: i128 = 0x4000_0000_0000_0000_0000_0000_0000_0000;

/// Magnitude of a mathematical integer.
pub open spec fn absi(a: int) -> int {
    if a < 0 {
        -a
    } else {
        a
    }
}

/// Division truncating toward zero, the convention of machine integer
/// division (spec-level `/` rounds toward negative infinity instead).
pub open spec fn tdiv(a: int, b: int) -> int {
    if (a < 0) != (b < 0) {
        -(absi(a) / absi(b))
    } else {
        absi(a) / absi(b)
    }
}

/// Clamp an integer to the `i64` range.
pub open spec fn sat64(v: int) -> int {
    if v < i64::MIN as int {
        i64::MIN as int
    } else if v > i64::MAX as int {
        i64::MAX as int
    } else {
        v
    }
}

/// Clamp an integer to the wide intermediate range `[-WIDE, WIDE]`.
pub open spec fn satw(v: int) -> int {
    if v < -(WIDE as int) {
        -(WIDE as int)
    } else if v > WIDE as int {
        WIDE as int
    } else {
        v
    }
}

/// Stored value of a fixed-point sum.
pub open spec fn fadd(a: int, b: int) -> int {
    sat64(a + b)
}

/// Stored value of a fixed-point difference.
pub open spec fn fsub(a: int, b: int) -> int {
    sat64(a - b)
}

/// Stored value of a fixed-point product: the wide product is rescaled
/// by `SCALE` with truncation, then saturated.
pub open spec fn fmul(a: int, b: int) -> int {
    sat64(tdiv(a * b, SCALE as int))
}

/// Stored value of a fixed-point quotient (`b != 0`): the numerator is
/// pre-scaled by `SCALE`, divided with truncation, then saturated.
pub open spec fn fdiv(a: int, b: int) -> int {
    sat64(tdiv(a * (SCALE as int), b))
}

/// Smaller of two stored values.
pub open spec fn fmin(a: int, b: int) -> int {
    if a <= b {
        a
    } else {
        b
    }
}

/// Larger of two stored values.
pub open spec fn fmax(a: int, b: int) -> int {
    if a <= b {
        b
    } else {
        a
    }
}

/// Stored value clamped to the unit interval `[0, 1]`.
pub open spec fn fclamp01(a: int) -> int {
    fmax(fmin(a, SCALE as int), 0)
}

/// The product of two `i64`-range integers stays within the wide range.
pub proof fn lemma_i64_product_in_wide(a: int, b: int)
    requires
        i64::MIN as int <= a <= i64::MAX as int,
        i64::MIN as int <= b <= i64::MAX as int,
    ensures
        -(WIDE as int) <= a * b <= WIDE as int,
{
    assert(-(WIDE as int) <= a * b <= WIDE as int) by (nonlinear_arith)
        requires
            -0x8000_0000_0000_0000 <= a <= 0x7fff_ffff_ffff_ffff,
            -0x8000_0000_0000_0000 <= b <= 0x7fff_ffff_ffff_ffff,
    ;
}

/// Truncating division shrinks magnitudes and keeps signs consistent.
pub proof fn lemma_tdiv_bound(a: int, b: int)
    requires
        b != 0,
    ensures
        absi(tdiv(a, b)) <= absi(a),
        a >= 0 && b > 0 ==> 0 <= tdiv(a, b) <= a,
{
    lemma_div_nonincreasing(absi(a), absi(b));
    if absi(a) / absi(b) < 0 {
        vstd::arithmetic::div_mod::lemma_div_pos_is_pos(absi(a), absi(b));
    }
}

/// Dividing an exact multiple of a positive divisor recovers the factor.
pub proof fn lemma_tdiv_exact(k: int, d: int)
    requires
        0 < d,
    ensures
        tdiv(k * d, d) == k,
{
    if k >= 0 {
        assert(k * d >= 0) by (nonlinear_arith)
            requires 0 <= k && 0 < d;
        vstd::arithmetic::div_mod::lemma_div_multiples_vanish(k, d);
        assert(d * k == k * d) by (nonlinear_arith);
        assert(tdiv(k * d, d) == (k * d) / d);
    } else {
        assert(k * d < 0) by (nonlinear_arith)
            requires k < 0 && 0 < d;
        vstd::arithmetic::div_mod::lemma_div_multiples_vanish(-k, d);
        assert(d * (-k) == -(k * d)) by (nonlinear_arith);
        assert(tdiv(k * d, d) == -((-(k * d)) / d));
    }
}

/// Truncating division by a positive divisor preserves order on
/// nonnegative numerators.
pub proof fn lemma_tdiv_ordered(a: int, b: int, d: int)
    requires
        0 <= a <= b,
        0 < d,
    ensures
        tdiv(a, d) <= tdiv(b, d),
{
    lemma_div_is_ordered(a, b, d);
}

/// Saturate a wide intermediate value to the `i64` range.
pub(crate) fn sat_to_i64(v: i128) -> (r: i64)
    ensures
        r as int == sat64(v as int),
{
    if v < -0x8000_0000_0000_0000i128 {
        i64::MIN
    } else if v > 0x7fff_ffff_ffff_ffffi128 {
        i64::MAX
    } else {
        v as i64
    }
}

/// Add two wide values, saturating at the wide bound.
pub(crate) fn satw_add(a: i128, b: i128) -> (r: i128)
    ensures
        r as int == satw(a as int + b as int),
{
    match a.checked_add(b) {
        Some(s) => {
            if s < -WIDE {
                -WIDE
            } else if s > WIDE {
                WIDE
            } else {
                s
            }
        },
        None => {
            if a < 0 {
                -WIDE
            } else {
                WIDE
            }
        },
    }
}

/// Truncating division on wide values.
pub(crate) fn tdiv_wide(a: i128, b: i128) -> (r: i128)
    requires
        -WIDE as int <= a as int <= WIDE as int,
        -WIDE as int <= b as int <= WIDE as int,
        b != 0,
    ensures
        r as int == tdiv(a as int, b as int),
        absi(r as int) <= absi(a as int),
{
    proof {
        lemma_tdiv_bound(a as int, b as int);
    }
    let neg: bool = (a < 0) != (b < 0);
    let am: u128 = if a < 0 {
        (-a) as u128
    } else {
        a as u128
    };
    let bm: u128 = if b < 0 {
        (-b) as u128
    } else {
        b as u128
    };
    assert(am as int == absi(a as int));
    assert(bm as int == absi(b as int));
    let q: u128 = am / bm;
    let qi: i128 = q as i128;
    if neg {
        -qi
    } else {
        qi
    }
}

/// A 16.16 fixed-point number: `raw` holds the real value times [`SCALE`].
#[derive(Clone, Copy, PartialEq, Eq, Structural, Debug)]
pub struct Fx {
    pub raw: i64,
}

/// The stored representation of zero.
pub open spec fn fx_zero() -> Fx {
    Fx { raw: 0 }
}

/// The stored representation of one.
pub open spec fn fx_one() -> Fx {
    Fx { raw: SCALE }
}

impl Fx {
    /// Wrap a stored value directly.
    pub fn from_raw(raw: i64) -> (r: Fx)
        ensures
            r.raw == raw,
    {
        Fx { raw }
    }

    /// The fixed-point value zero.
    pub fn zero() -> (r: Fx)
        ensures
            r == fx_zero(),
    {
        Fx { raw: 0 }
    }

    /// The fixed-point value one.
    pub fn one() -> (r: Fx)
        ensures
            r == fx_one(),
    {
        Fx { raw: SCALE }
    }

    /// The fixed-point value of a small integer, saturated at the range
    /// bounds.
    pub fn from_int(i: i64) -> (r: Fx)
        ensures
            r.raw as int == sat64(i as int * SCALE as int),
    {
        let p: i128 = i as i128 * 65536i128;
        Fx { raw: sat_to_i64(p) }
    }

    /// Saturating fixed-point sum.
    pub fn plus(self, o: Fx) -> (r: Fx)
        ensures
            r.raw as int == fadd(self.raw as int, o.raw as int),
    {
        Fx { raw: sat_to_i64(self.raw as i128 + o.raw as i128) }
    }

    /// Saturating fixed-point difference.
    pub fn minus(self, o: Fx) -> (r: Fx)
        ensures
            r.raw as int == fsub(self.raw as int, o.raw as int),
    {
        Fx { raw: sat_to_i64(self.raw as i128 - o.raw as i128) }
    }

    /// Saturating fixed-point product.
    pub fn times(self, o: Fx) -> (r: Fx)
        ensures
            r.raw as int == fmul(self.raw as int, o.raw as int),
    {
        proof {
            lemma_i64_product_in_wide(self.raw as int, o.raw as int);
        }
        let p: i128 = self.raw as i128 * o.raw as i128;
        let q: i128 = tdiv_wide(p, 65536i128);
        Fx { raw: sat_to_i64(q) }
    }

    /// Saturating fixed-point quotient; the divisor must be nonzero.
    pub fn over(self, o: Fx) -> (r: Fx)
        requires
            o.raw != 0,
        ensures
            r.raw as int == fdiv(self.raw as int, o.raw as int),
    {
        let p: i128 = self.raw as i128 * 65536i128;
        let q: i128 = tdiv_wide(p, o.raw as i128);
        Fx { raw: sat_to_i64(q) }
    }

    /// Smaller of two fixed-point values.
    pub fn min(self, o: Fx) -> (r: Fx)
        ensures
            r.raw as int == fmin(self.raw as int, o.raw as int),
    {
        if self.raw <= o.raw {
            self
        } else {
            o
        }
    }

    /// Larger of two fixed-point values.
    pub fn max(self, o: Fx) -> (r: Fx)
        ensures
            r.raw as int == fmax(self.raw as int, o.raw as int),
    {
        if self.raw <= o.raw {
            o
        } else {
            self
        }
    }

    /// Clamp into the unit interval `[0, 1]`.
    pub fn clamp01(self) -> (r: Fx)
        ensures
            r.raw as int == fclamp01(self.raw as int),
    {
        self.min(Fx::one()).max(Fx::zero())
    }
}

} // verus!
