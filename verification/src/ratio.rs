//! Fixed-point ratios with eighteen decimals.
use vstd::prelude::*;
use crate::fixed_point::{mul_div, mul_div_floor};

verus! {

/// The ratio `1.0`.
pub const RATIO_ONE: u128 = 1_000_000_000_000_000_000;

/// One basis point (`0.0001`) as a ratio.
pub const RATIO_BASIS_POINT: u128 = 100_000_000_000_000;

/// A non-negative ratio, held as a multiple of `10^-18`.
#[derive(Clone, Copy, Debug, PartialEq, Eq, Structural)]
pub struct Ratio {
    pub inner: u128,
}

/// `base^exp` by repeated squaring, every product rounded down, times `acc`; absent when a
/// product that the method needs does not fit.
pub open spec fn pow_spec(acc: u128, base: u128, exp: nat) -> Option<u128>
    decreases exp,
{
    if exp == 0 {
        Some(acc)
    } else {
        let acc2 = if exp % 2 == 1 {
            mul_div_floor(acc as int, base as int, RATIO_ONE as int)
        } else {
            Some(acc)
        };
        match acc2 {
            None => None,
            Some(a) => if exp == 1 {
                Some(a)
            } else {
                match mul_div_floor(base as int, base as int, RATIO_ONE as int) {
                    None => None,
                    Some(b) => pow_spec(a, b, exp / 2),
                }
            },
        }
    }
}

impl Ratio {
    /// The ratio `1.0`.
    pub fn one() -> (r: Ratio)
        ensures
            r.inner == RATIO_ONE,
    {
        Ratio { inner: RATIO_ONE }
    }

    /// A ratio from its multiple of `10^-18`.
    pub fn from_inner(inner: u128) -> (r: Ratio)
        ensures
            r.inner == inner,
    {
        Ratio { inner }
    }

    /// The ratio as a multiple of `10^-18`.
    pub fn into_inner(self) -> (inner: u128)
        ensures
            inner == self.inner,
    {
        self.inner
    }

    /// A whole number as a ratio.
    pub fn from_integer(n: u128) -> (r: Ratio)
        requires
            n * RATIO_ONE <= u128::MAX,
        ensures
            r.inner == n * RATIO_ONE,
    {
        Ratio { inner: n * RATIO_ONE }
    }

    /// A ratio from basis points (`10_000` is `1.0`).
    pub fn from_basis_points(bps: u32) -> (r: Ratio)
        ensures
            r.inner == bps * RATIO_BASIS_POINT,
    {
        Ratio { inner: bps as u128 * RATIO_BASIS_POINT }
    }

    /// The ratio in whole basis points, rounded down; `None` above `u32::MAX` of them.
    pub fn to_basis_points(self) -> (bps: Option<u32>)
        ensures
            bps == (if self.inner / RATIO_BASIS_POINT <= u32::MAX {
                Some((self.inner / RATIO_BASIS_POINT) as u32)
            } else {
                None
            }),
    {
        let q: u128 = self.inner / RATIO_BASIS_POINT;
        if q <= u32::MAX as u128 {
            Some(q as u32)
        } else {
            None
        }
    }

    pub fn is_zero(self) -> (zero: bool)
        ensures
            zero == (self.inner == 0),
    {
        self.inner == 0
    }

    /// The product of two ratios, rounded down.
    pub fn checked_mul(self, other: Ratio) -> (r: Option<Ratio>)
        ensures
            r == (match mul_div_floor(self.inner as int, other.inner as int, RATIO_ONE as int) {
                Some(inner) => Some(Ratio { inner }),
                None => None,
            }),
    {
        match mul_div(self.inner, other.inner, RATIO_ONE) {
            Some(inner) => Some(Ratio { inner }),
            None => None,
        }
    }

    /// `value` scaled by the ratio, rounded down.
    pub fn checked_mul_value(self, value: u128) -> (r: Option<u128>)
        ensures
            r == mul_div_floor(self.inner as int, value as int, RATIO_ONE as int),
    {
        mul_div(self.inner, value, RATIO_ONE)
    }

    /// `value` divided by the ratio, rounded down; `None` for a zero ratio.
    pub fn checked_div_value(self, value: u128) -> (r: Option<u128>)
        ensures
            r == mul_div_floor(value as int, RATIO_ONE as int, self.inner as int),
    {
        mul_div(value, RATIO_ONE, self.inner)
    }

    /// The ratio divided by a whole number, rounded down; `None` for zero.
    pub fn checked_div_int(self, n: u128) -> (r: Option<Ratio>)
        ensures
            r == (if n == 0 {
                None::<Ratio>
            } else {
                Some(Ratio { inner: self.inner / n })
            }),
    {
        if n == 0 {
            None
        } else {
            Some(Ratio { inner: self.inner / n })
        }
    }

    /// The ratio raised to a whole power, every product rounded down.
    pub fn checked_pow(self, exp: u128) -> (r: Option<Ratio>)
        ensures
            r == (match pow_spec(RATIO_ONE, self.inner, exp as nat) {
                Some(inner) => Some(Ratio { inner }),
                None => None,
            }),
    {
        let mut acc: u128 = RATIO_ONE;
        let mut base: u128 = self.inner;
        let mut left: u128 = exp;
        while left > 0
            invariant
                pow_spec(RATIO_ONE, self.inner, exp as nat) == pow_spec(acc, base, left as nat),
            decreases left,
        {
            if left % 2 == 1 {
                acc = match mul_div(acc, base, RATIO_ONE) {
                    Some(v) => v,
                    None => {
                        return None;
                    },
                };
            }
            if left == 1 {
                return Some(Ratio { inner: acc });
            }
            base = match mul_div(base, base, RATIO_ONE) {
                Some(v) => v,
                None => {
                    return None;
                },
            };
            left = left / 2;
        }
        Some(Ratio { inner: acc })
    }
}

/// A power of a ratio that is at least one is at least one.
pub proof fn law_pow_at_least_one(acc: u128, base: u128, exp: nat)
    requires
        acc >= RATIO_ONE,
        base >= RATIO_ONE,
    ensures
        pow_spec(acc, base, exp) matches Some(p) ==> p >= acc,
    decreases exp,
{
    if exp > 0 {
        lemma_scaling_up(acc as int, base as int);
        lemma_scaling_up(base as int, base as int);
        let acc2 = if exp % 2 == 1 {
            mul_div_floor(acc as int, base as int, RATIO_ONE as int)
        } else {
            Some(acc)
        };
        if acc2 is Some && exp > 1 {
            let b2 = mul_div_floor(base as int, base as int, RATIO_ONE as int);
            if b2 is Some {
                law_pow_at_least_one(acc2->0, b2->0, exp / 2);
            }
        }
    }
}

/// Scaling by a ratio of at least one does not shrink a value.
pub proof fn lemma_scaling_up(value: int, ratio: int)
    requires
        value >= 0,
        ratio >= RATIO_ONE,
    ensures
        value * ratio / RATIO_ONE as int >= value,
        ratio * value / RATIO_ONE as int >= value,
{
    assert(value * ratio >= value * RATIO_ONE && value * ratio == ratio * value) by (nonlinear_arith)
        requires
            value >= 0,
            ratio >= RATIO_ONE,
    ;
    assert(value * ratio / RATIO_ONE as int >= value);
}

} // verus!
