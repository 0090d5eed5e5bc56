//! What the power of a ratio is, up to the rounding of its products.
use vstd::arithmetic::power::{
    lemma_pow0, lemma_pow1, lemma_pow_adds, lemma_pow_distributes, lemma_pow_multiplies,
    lemma_pow_positive, pow,
};
use vstd::prelude::*;
use crate::fixed_point::mul_div_floor;
use crate::ratio::{lemma_scaling_up, pow_spec, RATIO_ONE};

verus! {

proof fn lemma_pow_in_base(x: int, y: int, n: nat)
    requires
        0 <= x <= y,
    ensures
        0 <= pow(x, n) <= pow(y, n),
    decreases n,
{
    reveal(pow);
    if n > 0 {
        lemma_pow_in_base(x, y, (n - 1) as nat);
        let a = pow(x, (n - 1) as nat);
        let b = pow(y, (n - 1) as nat);
        assert(0 <= x * a <= y * b) by (nonlinear_arith)
            requires
                0 <= x <= y,
                0 <= a <= b,
        ;
    }
}

/// `x^(2k)` is `(x * x)^k`.
proof fn lemma_pow_of_square(x: int, k: nat)
    ensures
        pow(x, 2 * k) == pow(x * x, k),
{
    lemma_pow_multiplies(x, 2, k);
    lemma_pow_adds(x, 1, 1);
    lemma_pow1(x);
}

/// `x^n` by its half: squared, and once more times `x` where `n` is odd.
proof fn lemma_pow_halved(x: int, n: nat)
    ensures
        pow(x, n) == (if n % 2 == 1 {
            x
        } else {
            1
        }) * pow(x * x, n / 2),
{
    let k = n / 2;
    lemma_pow_of_square(x, k);
    if n % 2 == 1 {
        lemma_pow_adds(x, 1, 2 * k);
        lemma_pow1(x);
        assert(n == 1 + 2 * k);
    } else {
        assert(n == 2 * k);
    }
}

/// A rounded product is at most the product.
proof fn lemma_rounds_down(x: int, y: int)
    requires
        0 <= x,
        0 <= y,
    ensures
        0 <= x * y / RATIO_ONE as int,
        x * y / RATIO_ONE as int * RATIO_ONE <= x * y,
        x * y < (x * y / RATIO_ONE as int + 1) * RATIO_ONE,
{
    assert(0 <= x * y) by (nonlinear_arith)
        requires
            0 <= x,
            0 <= y,
    ;
}

/// A rounded product of ratios of at least one loses at most one part in `RATIO_ONE`.
proof fn lemma_rounds_little(x: int, y: int)
    requires
        x >= RATIO_ONE,
        y >= RATIO_ONE,
    ensures
        x * y / RATIO_ONE as int * RATIO_ONE * RATIO_ONE >= x * y * (RATIO_ONE - 1),
        x * y / RATIO_ONE as int >= RATIO_ONE,
{
    let one = RATIO_ONE as int;
    let xy = x * y;
    let q = xy / one;
    lemma_rounds_down(x, y);
    assert(xy >= one * one) by (nonlinear_arith)
        requires
            xy == x * y,
            x >= one,
            y >= one,
            one > 0,
    ;
    assert(q * one * one >= xy * (one - 1)) by (nonlinear_arith)
        requires
            xy < (q + 1) * one,
            xy >= one * one,
            one > 0,
    ;
}

proof fn lemma_upper(acc: u128, base: u128, exp: nat)
    ensures
        pow_spec(acc, base, exp) matches Some(p) ==> p * pow(RATIO_ONE as int, exp) <= acc * pow(
            base as int,
            exp,
        ),
    decreases exp,
{
    let one = RATIO_ONE as int;
    if exp == 0 {
        lemma_pow0(one);
        lemma_pow0(base as int);
    } else if pow_spec(acc, base, exp) is Some {
        let p = pow_spec(acc, base, exp)->0 as int;
        lemma_rounds_down(acc as int, base as int);
        lemma_rounds_down(base as int, base as int);
        lemma_pow_halved(one, exp);
        lemma_pow_halved(base as int, exp);
        let k = exp / 2;
        let a = if exp % 2 == 1 {
            mul_div_floor(acc as int, base as int, one)->0
        } else {
            acc
        };
        let odd_one = if exp % 2 == 1 {
            one
        } else {
            1
        };
        let odd_base = if exp % 2 == 1 {
            base as int
        } else {
            1
        };
        assert(a * odd_one <= acc * odd_base);
        if exp == 1 {
            lemma_pow0(one * one);
            lemma_pow0(base * base);
            assert(p == a);
            assert(pow(one, exp) == odd_one);
            assert(pow(base as int, exp) == odd_base);
        } else {
            let b = mul_div_floor(base as int, base as int, one)->0;
            lemma_upper(a, b, k);
            // p * one^k <= a * b^k, and (b * one)^k <= (base * base)^k.
            lemma_pow_in_base(b * one, base * base, k);
            lemma_pow_distributes(b as int, one, k);
            lemma_pow_distributes(one, one, k);
            lemma_pow_positive(one, k);
            let u = pow(one, k);
            let v = pow(b as int, k);
            let w = pow(base * base, k);
            lemma_pow_in_base(b as int, b as int, k);
            assert(p * (odd_one * (u * u)) <= acc * (odd_base * w)) by (nonlinear_arith)
                requires
                    p * u <= a * v,
                    v * u <= w,
                    a * odd_one <= acc * odd_base,
                    0 < u,
                    0 <= v,
                    0 <= a,
                    0 <= acc,
                    1 <= odd_one,
                    0 <= odd_base,
                    0 <= p,
                    0 <= w,
            {
                assert(p * u * u * odd_one <= a * v * u * odd_one);
                assert(a * (v * u) * odd_one <= a * w * odd_one);
                assert(a * odd_one * w <= acc * odd_base * w);
            }
            assert(pow(one, exp) == odd_one * (u * u));
            assert(pow(base as int, exp) == odd_base * w);
        }
    }
}

proof fn lemma_lower(acc: u128, base: u128, exp: nat)
    requires
        acc >= RATIO_ONE,
        base >= RATIO_ONE,
    ensures
        pow_spec(acc, base, exp) matches Some(p) ==> p * pow(
            (RATIO_ONE * RATIO_ONE) as int,
            exp,
        ) >= acc * pow(base * (RATIO_ONE - 1), exp),
    decreases exp,
{
    let one = RATIO_ONE as int;
    let lo = one - 1;
    let full = one * one;
    let cut = base * lo;
    if exp == 0 {
        lemma_pow0(full);
        lemma_pow0(cut);
    } else if pow_spec(acc, base, exp) is Some {
        let p = pow_spec(acc, base, exp)->0 as int;
        lemma_rounds_little(acc as int, base as int);
        lemma_rounds_little(base as int, base as int);
        lemma_pow_halved(full, exp);
        lemma_pow_halved(cut, exp);
        let k = exp / 2;
        let a = if exp % 2 == 1 {
            mul_div_floor(acc as int, base as int, one)->0
        } else {
            acc
        };
        let odd_full = if exp % 2 == 1 {
            full
        } else {
            1
        };
        let odd_cut = if exp % 2 == 1 {
            cut
        } else {
            1
        };
        assert(a * odd_full >= acc * odd_cut) by {
            if exp % 2 == 1 {
                assert(a * full >= acc * cut) by (nonlinear_arith)
                    requires
                        a * one * one >= acc * base * lo,
                        full == one * one,
                        cut == base * lo,
                ;
            }
        }
        if exp == 1 {
            lemma_pow0(full * full);
            lemma_pow0(cut * cut);
            assert(p == a);
            assert(pow(full, exp) == odd_full);
            assert(pow(cut, exp) == odd_cut);
        } else {
            let b = mul_div_floor(base as int, base as int, one)->0;
            lemma_lower(a, b, k);
            let cut_next = b * lo;
            assert(0 <= cut * cut <= cut_next * full) by (nonlinear_arith)
                requires
                    b * one * one >= base * base * lo,
                    full == one * one,
                    cut == base * lo,
                    cut_next == b * lo,
                    lo >= 0,
            {
                assert((b * one * one) * lo >= (base * base * lo) * lo);
            }
            lemma_pow_in_base(cut * cut, cut_next * full, k);
            lemma_pow_distributes(cut_next, full, k);
            lemma_pow_distributes(full, full, k);
            lemma_pow_positive(full, k);
            let u = pow(full, k);
            let v = pow(cut_next, k);
            let w = pow(cut * cut, k);
            assert(0 <= cut) by (nonlinear_arith)
                requires
                    cut == base * lo,
                    base >= 0,
                    lo >= 0,
            ;
            assert(p * (odd_full * (u * u)) >= acc * (odd_cut * w)) by (nonlinear_arith)
                requires
                    p * u >= a * v,
                    v * u >= w,
                    a * odd_full >= acc * odd_cut,
                    0 < u,
                    0 <= w,
                    0 <= a,
                    1 <= odd_full,
            {
                assert(p * u * u * odd_full >= a * v * u * odd_full);
                assert(a * (v * u) * odd_full >= a * w * odd_full);
                assert(a * odd_full * w >= acc * odd_cut * w);
            }
            assert(pow(full, exp) == odd_full * (u * u));
            assert(pow(cut, exp) == odd_cut * w);
        }
    }
}

proof fn lemma_product_grows(x: int, x2: int, y: int, y2: int)
    requires
        0 <= x <= x2,
        0 <= y <= y2,
    ensures
        0 <= x * y / RATIO_ONE as int <= x2 * y2 / RATIO_ONE as int,
{
    assert(0 <= x * y <= x2 * y2) by (nonlinear_arith)
        requires
            0 <= x <= x2,
            0 <= y <= y2,
    ;
}

/// Where the larger power fits, the smaller one fits and is no larger.
proof fn lemma_grows(acc: u128, acc2: u128, base: u128, base2: u128, exp: nat)
    requires
        acc <= acc2,
        base <= base2,
    ensures
        pow_spec(acc2, base2, exp) matches Some(q) ==> (pow_spec(acc, base, exp) matches Some(p)
            && p <= q),
    decreases exp,
{
    if exp > 0 && pow_spec(acc2, base2, exp) is Some {
        let one = RATIO_ONE as int;
        lemma_product_grows(acc as int, acc2 as int, base as int, base2 as int);
        lemma_product_grows(base as int, base2 as int, base as int, base2 as int);
        let a = if exp % 2 == 1 {
            mul_div_floor(acc as int, base as int, one)->0
        } else {
            acc
        };
        let a2 = if exp % 2 == 1 {
            mul_div_floor(acc2 as int, base2 as int, one)->0
        } else {
            acc2
        };
        if exp > 1 {
            let b = mul_div_floor(base as int, base as int, one)->0;
            let b2 = mul_div_floor(base2 as int, base2 as int, one)->0;
            lemma_grows(a, a2, b, b2, exp / 2);
        }
    }
}

/// One more factor: a power of `exp` that starts from at most one factor is no larger than the
/// power of `exp + 1`.
proof fn lemma_next_power(acc: u128, base: u128, exp: nat)
    requires
        RATIO_ONE <= acc <= base,
    ensures
        pow_spec(RATIO_ONE, base, exp + 1) matches Some(q) ==> (pow_spec(acc, base, exp) matches Some(
            p,
        ) && p <= q),
    decreases exp,
{
    let one = RATIO_ONE as int;
    let next = exp + 1;
    if pow_spec(RATIO_ONE, base, next) is Some {
        assert(RATIO_ONE * base / RATIO_ONE as int == base);
        if exp > 0 {
            let b = mul_div_floor(base as int, base as int, one)->0;
            assert(mul_div_floor(base as int, base as int, one) is Some);
            if exp % 2 == 0 {
                assert(next / 2 == exp / 2);
                lemma_grows(acc, base, b, b, exp / 2);
            } else {
                assert(next % 2 == 0);
                lemma_product_grows(acc as int, base as int, base as int, base as int);
                lemma_scaling_up(acc as int, base as int);
                let a = mul_div_floor(acc as int, base as int, one)->0;
                if exp == 1 {
                    assert(next / 2 == 1);
                    assert(RATIO_ONE * b / RATIO_ONE as int == b);
                    assert(pow_spec(RATIO_ONE, b, 1) == Some(b));
                } else {
                    assert(next / 2 == exp / 2 + 1);
                    lemma_next_power(a, b, exp / 2);
                }
            }
        }
    }
}

/// The power of a ratio never exceeds the exact power: rounding only lowers it.
///
/// With `r = base / RATIO_ONE` and `p / RATIO_ONE` the result, this is `p / RATIO_ONE <= r^exp`.
pub proof fn law_pow_is_at_most_exact(base: u128, exp: nat)
    ensures
        pow_spec(RATIO_ONE, base, exp) matches Some(p) ==> p * pow(RATIO_ONE as int, exp)
            <= RATIO_ONE * pow(base as int, exp),
{
    lemma_upper(RATIO_ONE, base, exp);
}

/// The power of a ratio of at least one falls short of the exact power by at most one part in
/// `RATIO_ONE` for each factor.
///
/// With `r = base / RATIO_ONE` and `p / RATIO_ONE` the result, this is
/// `p / RATIO_ONE >= r^exp * (1 - 1 / RATIO_ONE)^exp`.
pub proof fn law_pow_is_close_to_exact(base: u128, exp: nat)
    requires
        base >= RATIO_ONE,
    ensures
        pow_spec(RATIO_ONE, base, exp) matches Some(p) ==> p * (pow(RATIO_ONE as int, exp) * pow(
            RATIO_ONE as int,
            exp,
        )) >= RATIO_ONE * (pow(base as int, exp) * pow(RATIO_ONE - 1, exp)),
{
    lemma_lower(RATIO_ONE, base, exp);
    lemma_pow_distributes(RATIO_ONE as int, RATIO_ONE as int, exp);
    lemma_pow_distributes(base as int, RATIO_ONE - 1, exp);
}

/// The power of a ratio of at least one grows with the exponent. Where the larger power fits, so
/// does the smaller.
pub proof fn law_pow_grows_with_exponent(base: u128, exp: nat, exp2: nat)
    requires
        base >= RATIO_ONE,
        exp <= exp2,
    ensures
        pow_spec(RATIO_ONE, base, exp2) matches Some(q) ==> (pow_spec(
            RATIO_ONE,
            base,
            exp,
        ) matches Some(p) && p <= q),
    decreases exp2,
{
    if exp < exp2 {
        lemma_next_power(RATIO_ONE, base, (exp2 - 1) as nat);
        law_pow_grows_with_exponent(base, exp, (exp2 - 1) as nat);
    }
}

/// The power of a ratio grows with the ratio. Where the larger power fits, so does the smaller.
pub proof fn law_pow_grows_with_base(base: u128, base2: u128, exp: nat)
    requires
        base <= base2,
    ensures
        pow_spec(RATIO_ONE, base2, exp) matches Some(q) ==> (pow_spec(
            RATIO_ONE,
            base,
            exp,
        ) matches Some(p) && p <= q),
{
    lemma_grows(RATIO_ONE, RATIO_ONE, base, base2, exp);
}

/// The power at the smallest exponents: nothing, the ratio itself, and its rounded square.
pub proof fn law_pow_small_exponents(base: u128)
    ensures
        pow_spec(RATIO_ONE, base, 0) == Some(RATIO_ONE),
        pow_spec(RATIO_ONE, base, 1) == Some(base),
        pow_spec(RATIO_ONE, base, 2) == mul_div_floor(base as int, base as int, RATIO_ONE as int),
{
    assert(RATIO_ONE * base / RATIO_ONE as int == base);
    reveal_with_fuel(pow_spec, 3);
    match mul_div_floor(base as int, base as int, RATIO_ONE as int) {
        Some(b) => {
            assert(RATIO_ONE * b / RATIO_ONE as int == b);
        },
        None => {},
    }
}

/// A power whose exact value is within `most` is there: no product on the way exceeds it.
proof fn lemma_fits(acc: u128, base: u128, exp: nat, most: int)
    requires
        acc >= RATIO_ONE,
        base >= RATIO_ONE,
        most <= u128::MAX,
        acc * pow(base as int, exp) <= most * pow(RATIO_ONE as int, exp),
    ensures
        pow_spec(acc, base, exp) is Some,
    decreases exp,
{
    let one = RATIO_ONE as int;
    if exp > 0 {
        let k = exp / 2;
        lemma_rounds_down(acc as int, base as int);
        lemma_rounds_down(base as int, base as int);
        lemma_rounds_little(acc as int, base as int);
        lemma_rounds_little(base as int, base as int);
        lemma_pow_halved(one, exp);
        lemma_pow_halved(base as int, exp);
        lemma_pow_distributes(one, one, k);
        lemma_pow_positive(one, k);
        let u = pow(one, k);
        let w = pow(base * base, k);
        let odd_one = if exp % 2 == 1 {
            one
        } else {
            1
        };
        let odd_base = if exp % 2 == 1 {
            base as int
        } else {
            1
        };
        assert(base * base >= one * one) by (nonlinear_arith)
            requires
                base >= one,
                one > 0,
        ;
        lemma_pow_in_base(one * one, base * base, k);
        let uu = u * u;
        assert(uu > 0) by (nonlinear_arith)
            requires
                uu == u * u,
                u > 0,
        ;
        assert(w >= uu);
        assert(acc * (odd_base * w) <= most * (odd_one * uu));
        if exp % 2 == 1 {
            assert(acc * base <= most * one) by (nonlinear_arith)
                requires
                    acc * (base * w) <= most * (one * uu),
                    w >= uu,
                    uu > 0,
                    acc >= 0,
                    base >= 0,
            {
                assert(acc * base * uu <= acc * base * w);
                assert((acc * base) * uu <= (most * one) * uu);
            }
        }
        let a = if exp % 2 == 1 {
            (acc * base / one) as u128
        } else {
            acc
        };
        assert(a * odd_one <= acc * odd_base);
        if exp > 1 {
            let z = pow(one * one, (k - 1) as nat);
            let y = pow(base * base, (k - 1) as nat);
            assert(uu == one * one * z && w == base * base * y) by {
                reveal(pow);
            }
            lemma_pow_in_base(one * one, base * base, (k - 1) as nat);
            assert(one * one > 0);
            lemma_pow_positive(one * one, (k - 1) as nat);
            assert(base * base <= most * one) by (nonlinear_arith)
                requires
                    acc * (odd_base * w) <= most * (odd_one * uu),
                    uu == one * one * z,
                    w == base * base * y,
                    y >= z,
                    z > 0,
                    acc >= one,
                    odd_base >= odd_one,
                    odd_one >= 1,
                    one > 0,
                    base >= one,
            {
                let bb = base * base;
                assert(bb >= 0);
                assert(w >= bb * z);
                assert(acc * odd_base >= one * odd_one);
                assert((acc * odd_base) * w >= (one * odd_one) * w);
                assert((one * odd_one) * w >= (one * odd_one) * (bb * z));
                assert((one * odd_one * z) * bb <= (one * odd_one * z) * (most * one));
            }
            let b = (base * base / one) as u128;
            lemma_pow_in_base(b * one, base * base, k);
            lemma_pow_distributes(b as int, one, k);
            let v = pow(b as int, k);
            lemma_pow_in_base(b as int, b as int, k);
            assert(a * v <= most * u) by (nonlinear_arith)
                requires
                    acc * (odd_base * w) <= most * (odd_one * uu),
                    uu == u * u,
                    v * u <= w,
                    a * odd_one <= acc * odd_base,
                    u > 0,
                    v >= 0,
                    a >= 0,
                    odd_one >= 1,
                    acc >= 0,
                    odd_base >= 0,
                    w >= 0,
            {
                assert((a * odd_one) * w <= (acc * odd_base) * w);
                assert((a * odd_one) * (v * u) <= (a * odd_one) * w);
                assert((odd_one * u) * (a * v) <= (odd_one * u) * (most * u));
            }
            lemma_fits(a, b, k, most);
        }
    }
}

/// The power of a ratio of at least one is there wherever its exact value, with eighteen
/// decimals, fits.
pub proof fn law_pow_is_there_when_it_fits(base: u128, exp: nat)
    requires
        base >= 1_000_000_000_000_000_000,
        1_000_000_000_000_000_000 * pow(base as int, exp) <= u128::MAX * pow(
            1_000_000_000_000_000_000,
            exp,
        ),
    ensures
        pow_spec(1_000_000_000_000_000_000, base, exp) is Some,
{
    lemma_fits(RATIO_ONE, base, exp, u128::MAX as int);
}

} // verus!
