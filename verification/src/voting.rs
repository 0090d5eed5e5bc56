//! Voting power: the square root of a balance, scaled by a time-staked multiplier.
use vstd::prelude::*;
use crate::fixed_point::{is_floor, lemma_division_rounds_down};
use crate::governance::{Error, BPS_DENOMINATOR};

verus! {

/// Whether `r` is the square root of `n`, rounded down.
pub open spec fn is_floor_sqrt(n: int, r: int) -> bool {
    0 <= r && r * r <= n < (r + 1) * (r + 1)
}

/// The square root of `n`, rounded down.
pub open spec fn floor_sqrt(n: int) -> int {
    choose|r: int| is_floor_sqrt(n, r)
}

/// The square root grows with its argument.
pub proof fn law_floor_sqrt_monotone(n1: int, r1: int, n2: int, r2: int)
    requires
        is_floor_sqrt(n1, r1),
        is_floor_sqrt(n2, r2),
        n1 <= n2,
    ensures
        r1 <= r2,
{
    if r1 > r2 {
        assert(r1 * r1 >= (r2 + 1) * (r2 + 1)) by (nonlinear_arith)
            requires
                r1 >= r2 + 1,
                r2 >= 0,
        ;
    }
}

/// A number has one square root rounded down, so `floor_sqrt` names it.
pub proof fn law_floor_sqrt_is_unique(n: int, r: int)
    requires
        is_floor_sqrt(n, r),
    ensures
        floor_sqrt(n) == r,
{
    law_floor_sqrt_monotone(n, r, n, floor_sqrt(n));
    law_floor_sqrt_monotone(n, floor_sqrt(n), n, r);
}

/// A Newton step from any positive start stays at or above the square root.
proof fn lemma_newton_step(n: int, x: int)
    requires
        0 <= n,
        1 <= x,
    ensures
        n < ((x + n / x) / 2 + 1) * ((x + n / x) / 2 + 1),
{
    let q = n / x;
    let y = (x + q) / 2;
    vstd::arithmetic::div_mod::lemma_fundamental_div_mod(n, x);
    assert(n < x * (q + 1)) by (nonlinear_arith)
        requires
            n == x * q + n % x,
            n % x < x,
    ;
    assert(4 * (x * (q + 1)) <= (x + q + 1) * (x + q + 1)) by (nonlinear_arith);
    assert(q >= 0) by (nonlinear_arith)
        requires
            0 <= n,
            1 <= x,
            q == n / x,
    ;
    assert((x + q + 1) * (x + q + 1) <= (2 * (y + 1)) * (2 * (y + 1))) by (nonlinear_arith)
        requires
            0 <= x + q + 1 <= 2 * (y + 1),
    ;
    assert((2 * (y + 1)) * (2 * (y + 1)) == 4 * ((y + 1) * (y + 1))) by (nonlinear_arith);
}

/// The integer (floor) square root of `n`, by Newton's method.
pub fn integer_sqrt(n: u128) -> (r: u128)
    ensures
        is_floor_sqrt(n as int, r as int),
        r == floor_sqrt(n as int),
{
    if n < 2 {
        proof {
            assert(n * n <= n < (n + 1) * (n + 1)) by (nonlinear_arith)
                requires
                    0 <= n <= 1,
            ;
            law_floor_sqrt_is_unique(n as int, n as int);
        }
        return n;
    }
    let mut x: u128 = n;
    let mut y: u128 = n / 2 + n % 2;
    proof {
        assert(n < (x + 1) * (x + 1)) by (nonlinear_arith)
            requires
                x == n,
        ;
        assert(n < (y + 1) * (y + 1)) by (nonlinear_arith)
            requires
                n <= 2 * y,
        ;
    }
    while y < x
        invariant
            2 <= n,
            1 <= y <= n / 2 + n % 2,
            1 <= x <= n,
            n < (y + 1) * (y + 1),
            n < (x + 1) * (x + 1),
            y < x || y == (x + n / x) / 2,
        decreases x,
    {
        x = y;
        proof {
            if x == 1 {
                assert((x + 1) * (x + 1) == 4) by (nonlinear_arith)
                    requires
                        x == 1,
                ;
            } else {
                assert(n / x <= n / 2) by (nonlinear_arith)
                    requires
                        x >= 2,
                        n >= 0,
                ;
            }
            assert(n / x >= 1) by (nonlinear_arith)
                requires
                    1 <= x <= n,
            ;
            lemma_newton_step(n as int, x as int);
        }
        y = (x + n / x) / 2;
    }
    proof {
        let q = n as int / x as int;
        assert(x <= q);
        assert(x * x <= n) by (nonlinear_arith)
            requires
                x <= q,
                q == n as int / x as int,
                x >= 1,
        ;
        law_floor_sqrt_is_unique(n as int, x as int);
    }
    x
}

/// The voting power of a balance: `sqrt(balance) * multiplier_bps / 10_000`.
pub open spec fn power(balance: u128, multiplier_bps: u32) -> int {
    floor_sqrt(balance as int) * multiplier_bps / BPS_DENOMINATOR as int
}

/// Voting power for a snapshot leaf: `sqrt(balance) * multiplier_bps / 10_000`. It always fits.
pub fn voting_power(balance: u128, multiplier_bps: u32) -> (r: Result<u128, Error>)
    ensures
        r == Ok::<u128, Error>(power(balance, multiplier_bps) as u128),
        0 <= power(balance, multiplier_bps) <= u128::MAX,
{
    let root: u128 = integer_sqrt(balance);
    proof {
        assert(root < 0x1_0000_0000_0000_0000) by (nonlinear_arith)
            requires
                root * root <= 0xffff_ffff_ffff_ffff_ffff_ffff_ffff_ffff,
        ;
        assert(0 <= root * multiplier_bps <= 0x1_0000_0000_0000_0000 * 0xffff_ffff)
            by (nonlinear_arith)
            requires
                0 <= root < 0x1_0000_0000_0000_0000,
                0 <= multiplier_bps <= 0xffff_ffff,
        ;
    }
    match root.checked_mul(multiplier_bps as u128) {
        Some(scaled) => Ok(scaled / BPS_DENOMINATOR as u128),
        None => Err(Error::ArithmeticError),
    }
}

/// Voting power grows with the balance and with the multiplier.
pub proof fn law_power_monotone(b1: u128, m1: u32, b2: u128, m2: u32)
    requires
        b1 <= b2,
        m1 <= m2,
    ensures
        power(b1, m1) <= power(b2, m2),
{
    lemma_floor_sqrt_exists(b1 as nat);
    lemma_floor_sqrt_exists(b2 as nat);
    law_floor_sqrt_monotone(b1 as int, floor_sqrt(b1 as int), b2 as int, floor_sqrt(b2 as int));
    assert(floor_sqrt(b1 as int) * m1 <= floor_sqrt(b2 as int) * m2) by (nonlinear_arith)
        requires
            0 <= floor_sqrt(b1 as int) <= floor_sqrt(b2 as int),
            0 <= m1 <= m2,
    ;
}

/// At the full multiplier the power of a perfect square is its root.
pub proof fn law_power_of_square(root: u64)
    ensures
        power((root * root) as u128, BPS_DENOMINATOR) == root,
{
    assert(root * root <= 0xffff_ffff_ffff_ffff_ffff_ffff_ffff_ffff) by (nonlinear_arith)
        requires
            0 <= root <= 0xffff_ffff_ffff_ffff,
    ;
    assert(root * root < (root + 1) * (root + 1)) by (nonlinear_arith);
    assert(0 <= root * root) by (nonlinear_arith);
    law_floor_sqrt_is_unique((root * root) as int, root as int);
}

proof fn lemma_floor_sqrt_exists(n: nat)
    ensures
        is_floor_sqrt(n as int, floor_sqrt(n as int)),
    decreases n,
{
    if n == 0 {
        assert(is_floor_sqrt(0, 0));
    } else {
        lemma_floor_sqrt_exists((n - 1) as nat);
        let r = floor_sqrt(n - 1);
        if n < (r + 1) * (r + 1) {
            assert(is_floor_sqrt(n as int, r));
        } else {
            assert((r + 1) * (r + 1) < (r + 2) * (r + 2)) by (nonlinear_arith)
                requires
                    r >= 0,
            ;
            assert(is_floor_sqrt(n as int, r + 1));
        }
    }
}

/// Voting power is the multiplier's share, in basis points, of the balance's square root. Both
/// are rounded down.
pub proof fn law_power_is_scaled_root(balance: u128, multiplier_bps: u32, root: int)
    requires
        0 <= root,
        root * root <= balance < (root + 1) * (root + 1),
    ensures
        is_floor(power(balance, multiplier_bps), root * multiplier_bps, 10_000),
        0 <= power(balance, multiplier_bps) <= 0xffff_ffff_ffff_ffff_ffff_ffff_ffff_ffff,
{
    law_floor_sqrt_is_unique(balance as int, root);
    lemma_division_rounds_down(root * multiplier_bps, 10_000);
    assert(root < 0x1_0000_0000_0000_0000) by (nonlinear_arith)
        requires
            0 <= root,
            root * root <= 0xffff_ffff_ffff_ffff_ffff_ffff_ffff_ffff,
    ;
    assert(0 <= root * multiplier_bps <= 0x1_0000_0000_0000_0000 * 0xffff_ffff)
        by (nonlinear_arith)
        requires
            0 <= root < 0x1_0000_0000_0000_0000,
            0 <= multiplier_bps <= 0xffff_ffff,
    ;
}

/// Every balance has a root.
pub proof fn law_root_exists(balance: u128) -> (root: int)
    ensures
        0 <= root,
        root * root <= balance < (root + 1) * (root + 1),
{
    lemma_floor_sqrt_exists(balance as nat);
    floor_sqrt(balance as int)
}

} // verus!
