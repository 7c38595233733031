//! Exact rational coordinates.
//!
//! The canvas and the layout engine measure positions as fractions of
//! integers, so a justified stave is laid out with one exact linear scale
//! instead of floating-point arithmetic. A `Frac` is not kept reduced; two
//! values are rationally equal when they cross-multiply equally.

use vstd::prelude::*;

verus! {

/// Magnitude bound on numerators and denominators handed to the canvas.
/// It keeps every product this crate computes inside `i64` and `i128`.
pub const COORD_LIMIT: i64 = 4_000_000_000_000_000;

/// A rational number `num / den` with `den > 0`.
#[derive(Clone, Copy, Debug, PartialEq, Eq, Structural)]
pub struct Frac {
    pub num: i64,
    pub den: i64,
}

impl Frac {
    /// A coordinate the canvas accepts: bounded and with a positive denominator.
    pub open spec fn wf(self) -> bool {
        0 < self.den <= COORD_LIMIT && -COORD_LIMIT <= self.num <= COORD_LIMIT
    }

    /// Bound on accumulated canvas extents: one addition looser than `wf`.
    pub open spec fn bound_wf(self) -> bool {
        0 < self.den <= COORD_LIMIT && -2 * COORD_LIMIT <= self.num <= 2 * COORD_LIMIT
    }

    /// `self <= other` as rational numbers (denominators positive).
    pub open spec fn spec_le(self, other: Frac) -> bool {
        self.num * other.den <= other.num * self.den
    }

    /// The larger of two rationals; on a tie the second is kept.
    pub open spec fn spec_max(self, other: Frac) -> Frac {
        if self.spec_le(other) {
            other
        } else {
            self
        }
    }

    pub fn whole(n: i64) -> (r: Frac)
        ensures
            r == (Frac { num: n, den: 1 }),
    {
        Frac { num: n, den: 1 }
    }

    pub fn le(self, other: Frac) -> (r: bool)
        requires
            self.den > 0,
            other.den > 0,
        ensures
            r == self.spec_le(other),
    {
        proof {
            lemma_i64_mul_fits_i128(self.num as int, other.den as int);
            lemma_i64_mul_fits_i128(other.num as int, self.den as int);
        }
        (self.num as i128) * (other.den as i128) <= (other.num as i128) * (self.den as i128)
    }

    pub fn max(self, other: Frac) -> (r: Frac)
        requires
            self.den > 0,
            other.den > 0,
        ensures
            r == self.spec_max(other),
    {
        if self.le(other) {
            other
        } else {
            self
        }
    }
}

/// The product of two `i64` values stays inside `i128`.
pub proof fn lemma_i64_mul_fits_i128(a: int, b: int)
    requires
        i64::MIN <= a <= i64::MAX,
        i64::MIN <= b <= i64::MAX,
    ensures
        i128::MIN <= a * b <= i128::MAX,
{
    assert(i128::MIN <= a * b <= i128::MAX) by (nonlinear_arith)
        requires
            i64::MIN <= a <= i64::MAX,
            i64::MIN <= b <= i64::MAX,
    ;
}

/// Rational `<=` is transitive.
pub proof fn lemma_le_trans(a: Frac, b: Frac, c: Frac)
    requires
        a.den > 0,
        b.den > 0,
        c.den > 0,
        a.spec_le(b),
        b.spec_le(c),
    ensures
        a.spec_le(c),
{
    assert(a.num * c.den <= c.num * a.den) by (nonlinear_arith)
        requires
            a.den > 0,
            b.den > 0,
            c.den > 0,
            a.num * b.den <= b.num * a.den,
            b.num * c.den <= c.num * b.den,
    ;
}

/// Both arguments of a maximum are at most the maximum.
pub proof fn lemma_max_ge(a: Frac, b: Frac)
    requires
        a.den > 0,
        b.den > 0,
    ensures
        a.spec_le(a.spec_max(b)),
        b.spec_le(a.spec_max(b)),
        a.spec_max(b) == a || a.spec_max(b) == b,
{
}

} // verus!
