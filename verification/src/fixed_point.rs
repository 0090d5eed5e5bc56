//! Full-width multiplication and division on 128-bit integers.
use vstd::prelude::*;

verus! {

/// `floor(a * b / c)`, absent when `c` is zero or the quotient needs more than 128 bits.
pub open spec fn mul_div_floor(a: int, b: int, c: int) -> Option<u128> {
    if c == 0 || a * b / c > u128::MAX {
        None
    } else {
        Some((a * b / c) as u128)
    }
}

/// Whether `q` is `a / c`, rounded down.
pub open spec fn is_floor(q: int, a: int, c: int) -> bool {
    q * c <= a < (q + 1) * c
}

/// Division rounds down, and nothing else is the rounded quotient.
pub proof fn lemma_division_rounds_down(a: int, c: int)
    requires
        c > 0,
    ensures
        is_floor(a / c, a, c),
        forall|q: int| #[trigger] is_floor(q, a, c) ==> q == a / c,
        a >= 0 ==> a / c >= 0,
{
    let d = a / c;
    vstd::arithmetic::div_mod::lemma_fundamental_div_mod(a, c);
    assert(d * c <= a < (d + 1) * c) by (nonlinear_arith)
        requires
            a == c * d + a % c,
            0 <= a % c < c,
    ;
    assert forall|q: int| #[trigger] is_floor(q, a, c) implies q == d by {
        assert(q == d) by (nonlinear_arith)
            requires
                q * c <= a < (q + 1) * c,
                d * c <= a < (d + 1) * c,
                c > 0,
        ;
    }
    assert(a >= 0 ==> d >= 0) by (nonlinear_arith)
        requires
            a < (d + 1) * c,
            c > 0,
    ;
}

/// Doubles a remainder modulo `c`, with the carry into the quotient.
fn double_mod(rem: u128, c: u128) -> (r: (bool, u128))
    requires
        rem < c,
    ensures
        2 * rem == (if r.0 { c as int } else { 0 }) + r.1,
        r.1 < c,
{
    if rem >= c - rem {
        (true, rem - (c - rem))
    } else {
        (false, rem + rem)
    }
}

/// Adds two remainders modulo `c`, with the carry into the quotient.
fn add_mod(x: u128, y: u128, c: u128) -> (r: (bool, u128))
    requires
        x < c,
        y < c,
    ensures
        x + y == (if r.0 { c as int } else { 0 }) + r.1,
        r.1 < c,
{
    if x >= c - y {
        (true, x - (c - y))
    } else {
        (false, x + y)
    }
}

proof fn lemma_quotient_unique(n: int, q: int, r: int, c: int)
    requires
        n == q * c + r,
        0 <= r < c,
    ensures
        n / c == q,
{
    vstd::arithmetic::div_mod::lemma_fundamental_div_mod_converse(n, c, q, r);
}

proof fn lemma_quotient_grows(a: int, b1: int, b2: int, c: int)
    requires
        0 <= a,
        0 <= b1 <= b2,
        0 < c,
    ensures
        a * b1 / c <= a * b2 / c,
{
    assert(a * b1 <= a * b2) by (nonlinear_arith)
        requires
            0 <= a,
            b1 <= b2,
    ;
    vstd::arithmetic::div_mod::lemma_div_is_ordered(a * b1, a * b2, c);
}

/// Quotient and remainder of `a * b / c`, found by halving `b`.
fn mul_div_rem(a: u128, b: u128, c: u128) -> (r: Option<(u128, u128)>)
    requires
        c > 0,
    ensures
        match r {
            Some((q, rem)) => a * b == q * c + rem && rem < c,
            None => a * b / c as int > u128::MAX,
        },
    decreases b,
{
    if b == 0 {
        assert(a * b == 0) by (nonlinear_arith)
            requires
                b == 0,
        ;
        return Some((0, 0));
    }
    let half: u128 = b / 2;
    let odd: bool = b % 2 == 1;
    proof {
        lemma_quotient_grows(a as int, half as int, b as int, c as int);
    }
    let (q0, r0): (u128, u128) = match mul_div_rem(a, half, c) {
        Some(p) => p,
        None => {
            return None;
        },
    };
    let (carry, r1): (bool, u128) = double_mod(r0, c);
    // a * (2 * half) == (2 * q0 + carry) * c + r1
    let ghost q1: int = 2 * q0 + (if carry { 1int } else { 0 });
    proof {
        assert(a * (2 * half) == q1 * c + r1) by (nonlinear_arith)
            requires
                a * half == q0 * c + r0,
                2 * r0 == (if carry { c as int } else { 0 }) + r1,
                q1 == 2 * q0 + (if carry { 1int } else { 0 }),
        ;
        lemma_quotient_unique(a * (2 * half), q1, r1 as int, c as int);
        lemma_quotient_grows(a as int, 2 * half as int, b as int, c as int);
    }
    let doubled: u128 = match q0.checked_mul(2) {
        Some(v) => v,
        None => {
            return None;
        },
    };
    let q1e: u128 = if carry {
        match doubled.checked_add(1) {
            Some(v) => v,
            None => {
                return None;
            },
        }
    } else {
        doubled
    };
    if !odd {
        return Some((q1e, r1));
    }
    let qa: u128 = a / c;
    let ra: u128 = a % c;
    let (carry2, r2): (bool, u128) = add_mod(r1, ra, c);
    let ghost q2: int = q1 + qa + (if carry2 { 1int } else { 0 });
    proof {
        vstd::arithmetic::div_mod::lemma_fundamental_div_mod(a as int, c as int);
        assert(a * b == q2 * c + r2) by (nonlinear_arith)
            requires
                b == 2 * half + 1,
                a * (2 * half) == q1 * c + r1,
                a == c * qa + ra,
                r1 + ra == (if carry2 { c as int } else { 0 }) + r2,
                q2 == q1 + qa + (if carry2 { 1int } else { 0 }),
        ;
        lemma_quotient_unique(a * b, q2, r2 as int, c as int);
    }
    let q2a: u128 = match q1e.checked_add(qa) {
        Some(v) => v,
        None => {
            return None;
        },
    };
    let q2e: u128 = if carry2 {
        match q2a.checked_add(1) {
            Some(v) => v,
            None => {
                return None;
            },
        }
    } else {
        q2a
    };
    Some((q2e, r2))
}

/// `floor(a * b / c)` without losing the high half of the product.
pub fn mul_div(a: u128, b: u128, c: u128) -> (r: Option<u128>)
    ensures
        r == mul_div_floor(a as int, b as int, c as int),
{
    if c == 0 {
        return None;
    }
    match mul_div_rem(a, b, c) {
        Some((q, rem)) => {
            proof {
                lemma_quotient_unique(a * b, q as int, rem as int, c as int);
            }
            Some(q)
        },
        None => None,
    }
}

/// A product divided by a number is rounded down; it is absent only for a division by zero and
/// where it does not fit.
pub proof fn law_mul_div_rounds_down(a: u128, b: u128, c: u128)
    ensures
        match mul_div_floor(a as int, b as int, c as int) {
            Some(q) => c > 0 && is_floor(q as int, a * b, c as int),
            None => c == 0 || a * b >= 0x1_0000_0000_0000_0000_0000_0000_0000_0000int * c,
        },
{
    if c > 0 {
        assert(a * b >= 0) by (nonlinear_arith)
            requires
                a >= 0,
                b >= 0,
        ;
        lemma_division_rounds_down(a * b, c as int);
        let q = a * b / (c as int);
        let most = 0x1_0000_0000_0000_0000_0000_0000_0000_0000int;
        assert(q >= most ==> a * b >= most * c) by (nonlinear_arith)
            requires
                q * c <= a * b,
                c > 0,
        ;
    }
}

} // verus!
