//! The arithmetic of collateralized debt: values, limits, interest and payments.
use vstd::arithmetic::power::{lemma_pow_positive, pow};
use vstd::prelude::*;
use crate::account::{Balance, Timestamp};
use crate::fixed_point::mul_div_floor;
use crate::ratio::{law_pow_at_least_one, lemma_scaling_up, pow_spec, Ratio, RATIO_ONE};
use crate::ratio_laws::{
    law_pow_grows_with_base, law_pow_grows_with_exponent, law_pow_is_at_most_exact,
    law_pow_is_close_to_exact,
};

verus! {

/// Hours in a year of 365 days.
pub const HOURS_PER_YEAR: u128 = 8_760;

pub const MILLISECONDS_PER_HOUR: u64 = 3_600_000;

/// Rao per alpha that stand for one TAO per alpha.
pub const RAO_PER_ALPHA_UNIT: u128 = 1_000_000_000;

/// A number as a balance, where it fits.
pub open spec fn as_balance(v: Option<u128>) -> Option<Balance> {
    match v {
        Some(x) => if x <= Balance::MAX {
            Some(x as Balance)
        } else {
            None
        },
        None => None,
    }
}

fn to_balance(v: Option<u128>) -> (r: Option<Balance>)
    ensures
        r == as_balance(v),
{
    match v {
        Some(x) => if x <= Balance::MAX as u128 {
            Some(x as Balance)
        } else {
            None
        },
        None => None,
    }
}

/// `ratio * amount`, rounded down; absent when it does not fit a balance.
pub open spec fn share_of(ratio: Ratio, amount: Balance) -> Option<Balance> {
    as_balance(mul_div_floor(ratio.inner as int, amount as int, RATIO_ONE as int))
}

/// `ratio * amount`; see [`share_of`].
pub fn share(ratio: Ratio, amount: Balance) -> (r: Option<Balance>)
    ensures
        r == share_of(ratio, amount),
{
    to_balance(ratio.checked_mul_value(amount as u128))
}

/// The debt that collateral bears: its value at `price`, divided by `ratio`; absent when a step
/// does not fit a balance or the ratio is zero.
pub open spec fn debt_limit_of(ratio: Ratio, price: Ratio, collateral: Balance) -> Option<Balance> {
    match share_of(price, collateral) {
        None => None,
        Some(value) => as_balance(
            mul_div_floor(value as int, RATIO_ONE as int, ratio.inner as int),
        ),
    }
}

/// The debt that collateral bears; see [`debt_limit_of`].
pub fn debt_limit(ratio: Ratio, price: Ratio, collateral: Balance) -> (r: Option<Balance>)
    ensures
        r == debt_limit_of(ratio, price, collateral),
{
    match share(price, collateral) {
        None => None,
        Some(value) => to_balance(ratio.checked_div_value(value as u128)),
    }
}

/// The least winning bid: the debt plus the liquidation fee on it.
pub open spec fn min_bid_of(fee: Ratio, debt: Balance) -> Option<Balance> {
    match mul_div_floor(fee.inner as int, debt as int, RATIO_ONE as int) {
        None => None,
        Some(charge) => if debt + charge <= Balance::MAX {
            Some((debt + charge) as Balance)
        } else {
            None
        },
    }
}

/// The least winning bid; see [`min_bid_of`].
pub fn min_bid(fee: Ratio, debt: Balance) -> (r: Option<Balance>)
    ensures
        r == min_bid_of(fee, debt),
{
    match fee.checked_mul_value(debt as u128) {
        None => None,
        Some(charge) => to_balance((debt as u128).checked_add(charge)),
    }
}

/// Debt with its interest brought up to date.
#[derive(Debug, Clone, Copy, PartialEq, Eq, Structural)]
pub struct Accrual {
    pub debt_balance: Balance,
    pub total_interest_accrued: Balance,
    pub last_interest_accrued_at: Timestamp,
    /// The increase in debt.
    pub interest: Balance,
}

/// The hourly growth factor of an annual rate, `1 + rate / 8760`.
pub open spec fn hourly_factor(rate: Ratio) -> int {
    RATIO_ONE + rate.inner / HOURS_PER_YEAR
}

/// What a debt of `debt` has grown to after `hours` whole hours at the annual `rate`:
/// `debt * (1 + rate / 8760)^hours`, held at the largest balance.
pub open spec fn grown_debt(debt: Balance, rate: Ratio, hours: nat) -> Option<Balance> {
    let factor = hourly_factor(rate);
    if factor > u128::MAX {
        None
    } else {
        match pow_spec(RATIO_ONE, factor as u128, hours) {
            None => None,
            Some(growth) => match mul_div_floor(growth as int, debt as int, RATIO_ONE as int) {
                None => None,
                Some(next) => Some(
                    if next <= Balance::MAX {
                        next as Balance
                    } else {
                        Balance::MAX
                    },
                ),
            },
        }
    }
}

/// The whole hours between two times.
pub open spec fn whole_hours(from: Timestamp, to: Timestamp) -> nat {
    ((to - from) / MILLISECONDS_PER_HOUR as int) as nat
}

/// Interest of whole elapsed hours, compounded hourly. The time of accrual moves past the hours
/// that were charged, so that the rest of an hour is charged later; without debt or without a
/// rate it moves to now.
pub open spec fn accrued(
    debt: Balance,
    total_interest: Balance,
    last: Timestamp,
    rate: Ratio,
    now: Timestamp,
) -> Option<Accrual> {
    let unchanged = Accrual {
        debt_balance: debt,
        total_interest_accrued: total_interest,
        last_interest_accrued_at: last,
        interest: 0,
    };
    if now <= last {
        Some(unchanged)
    } else if debt == 0 || rate.inner == 0 {
        Some(Accrual { last_interest_accrued_at: now, ..unchanged })
    } else if whole_hours(last, now) == 0 {
        Some(unchanged)
    } else {
        match grown_debt(debt, rate, whole_hours(last, now)) {
            None => None,
            Some(next) => if total_interest + (next - debt) > Balance::MAX {
                None
            } else {
                Some(
                    Accrual {
                        debt_balance: next,
                        total_interest_accrued: (total_interest + (next - debt)) as Balance,
                        last_interest_accrued_at: (last + whole_hours(last, now)
                            * MILLISECONDS_PER_HOUR) as Timestamp,
                        interest: (next - debt) as Balance,
                    },
                )
            },
        }
    }
}

/// Interest never lowers a debt.
pub proof fn law_debt_grows(debt: Balance, rate: Ratio, hours: nat)
    ensures
        grown_debt(debt, rate, hours) matches Some(next) ==> next >= debt,
{
    let factor = hourly_factor(rate);
    if factor <= u128::MAX {
        law_pow_at_least_one(RATIO_ONE, factor as u128, hours);
        match pow_spec(RATIO_ONE, factor as u128, hours) {
            Some(growth) => lemma_scaling_up(debt as int, growth as int),
            None => {},
        }
    }
}

/// Brings the interest on a debt up to date; see [`accrued`].
pub fn accrue(
    debt: Balance,
    total_interest: Balance,
    last: Timestamp,
    rate: Ratio,
    now: Timestamp,
) -> (r: Option<Accrual>)
    ensures
        r == accrued(debt, total_interest, last, rate, now),
{
    let unchanged = Accrual {
        debt_balance: debt,
        total_interest_accrued: total_interest,
        last_interest_accrued_at: last,
        interest: 0,
    };
    if now <= last {
        return Some(unchanged);
    }
    if debt == 0 || rate.is_zero() {
        return Some(
            Accrual {
                debt_balance: debt,
                total_interest_accrued: total_interest,
                last_interest_accrued_at: now,
                interest: 0,
            },
        );
    }
    let elapsed: u64 = now - last;
    let hours: u64 = elapsed / MILLISECONDS_PER_HOUR;
    if hours == 0 {
        return Some(unchanged);
    }
    let hourly_rate: u128 = rate.into_inner() / HOURS_PER_YEAR;
    let factor: u128 = match RATIO_ONE.checked_add(hourly_rate) {
        Some(f) => f,
        None => {
            return None;
        },
    };
    let growth: Ratio = match Ratio::from_inner(factor).checked_pow(hours as u128) {
        Some(g) => g,
        None => {
            return None;
        },
    };
    let next: u128 = match growth.checked_mul_value(debt as u128) {
        Some(n) => n,
        None => {
            return None;
        },
    };
    let next_debt: Balance = if next <= Balance::MAX as u128 {
        next as Balance
    } else {
        Balance::MAX
    };
    proof {
        law_debt_grows(debt, rate, hours as nat);
        assert(hours * MILLISECONDS_PER_HOUR <= elapsed);
    }
    let interest: Balance = next_debt - debt;
    match total_interest.checked_add(interest) {
        Some(total) => Some(
            Accrual {
                debt_balance: next_debt,
                total_interest_accrued: total,
                last_interest_accrued_at: last + hours * MILLISECONDS_PER_HOUR,
                interest,
            },
        ),
        None => None,
    }
}

/// The time from which a debt that grows by `amount` at `now` is charged: the average of `last`
/// and `now`, weighted by the old debt and the new. Absent when the debts do not fit together.
pub open spec fn weighted_time(last: Timestamp, debt: Balance, now: Timestamp, amount: Balance) ->
    Option<Timestamp> {
    if amount == 0 || debt == 0 {
        Some(last)
    } else if debt + amount > Balance::MAX {
        None
    } else {
        Some(((last * debt + now * amount) / (debt + amount)) as Timestamp)
    }
}

proof fn lemma_weighted_time(last: int, debt: int, now: int, amount: int)
    requires
        0 <= last <= 0xffff_ffff_ffff_ffff,
        0 <= now <= 0xffff_ffff_ffff_ffff,
        0 < debt,
        0 < amount,
        debt + amount <= 0xffff_ffff_ffff_ffff,
    ensures
        0 <= last * debt,
        0 <= now * amount,
        last * debt + now * amount <= 0xffff_ffff_ffff_ffff * 0xffff_ffff_ffff_ffff,
        ({
            let t = (last * debt + now * amount) / (debt + amount);
            &&& 0 <= t
            &&& last <= now ==> last <= t <= now
            &&& now <= last ==> now <= t <= last
        }),
{
    let lo = if last <= now {
        last
    } else {
        now
    };
    let hi = if last <= now {
        now
    } else {
        last
    };
    let w = debt + amount;
    let sum = last * debt + now * amount;
    assert(lo * w <= sum <= hi * w) by (nonlinear_arith)
        requires
            0 <= lo <= last <= hi,
            lo <= now <= hi,
            0 < debt,
            0 < amount,
            w == debt + amount,
            sum == last * debt + now * amount,
    ;
    assert(0 <= last * debt && 0 <= now * amount) by (nonlinear_arith)
        requires
            0 <= last,
            0 <= now,
            0 < debt,
            0 < amount,
    ;
    assert(hi * w <= 0xffff_ffff_ffff_ffff * 0xffff_ffff_ffff_ffff) by (nonlinear_arith)
        requires
            0 <= hi <= 0xffff_ffff_ffff_ffff,
            0 <= w <= 0xffff_ffff_ffff_ffff,
    ;
    assert(lo <= sum / w <= hi) by (nonlinear_arith)
        requires
            lo * w <= sum <= hi * w,
            0 < w,
    ;
}

/// The time from which a growing debt is charged; see [`weighted_time`].
pub fn weigh_time(last: Timestamp, debt: Balance, now: Timestamp, amount: Balance) -> (r: Option<
    Timestamp,
>)
    ensures
        r == weighted_time(last, debt, now, amount),
{
    if amount == 0 || debt == 0 {
        return Some(last);
    }
    match debt.checked_add(amount) {
        None => None,
        Some(projected) => {
            proof {
                lemma_weighted_time(last as int, debt as int, now as int, amount as int);
            }
            let weighted: u128 = last as u128 * debt as u128 + now as u128 * amount as u128;
            Some((weighted / projected as u128) as u64)
        },
    }
}

/// The weighted time lies between the two times that it averages.
pub proof fn law_weighted_time_between(
    last: Timestamp,
    debt: Balance,
    now: Timestamp,
    amount: Balance,
)
    requires
        last <= now,
    ensures
        weighted_time(last, debt, now, amount) matches Some(t) ==> last <= t <= now,
{
    if amount > 0 && debt > 0 && debt + amount <= Balance::MAX {
        lemma_weighted_time(last as int, debt as int, now as int, amount as int);
    }
}

/// Interest is charged only for whole hours, and the time of accrual never runs ahead.
pub proof fn law_accrual_within_time(
    debt: Balance,
    total_interest: Balance,
    last: Timestamp,
    rate: Ratio,
    now: Timestamp,
)
    requires
        last <= now,
    ensures
        accrued(debt, total_interest, last, rate, now) matches Some(a) ==> {
            &&& last <= a.last_interest_accrued_at <= now
            &&& a.debt_balance == debt + a.interest
            &&& a.total_interest_accrued == total_interest + a.interest
            &&& now - last < MILLISECONDS_PER_HOUR ==> a.interest == 0
            &&& debt > 0 && rate.inner > 0 ==> now - a.last_interest_accrued_at
                < MILLISECONDS_PER_HOUR
        },
{
    law_debt_grows(debt, rate, whole_hours(last, now));
}

/// Accruing again at the same time changes nothing.
pub proof fn law_accrual_idempotent(
    debt: Balance,
    total_interest: Balance,
    last: Timestamp,
    rate: Ratio,
    now: Timestamp,
)
    requires
        accrued(debt, total_interest, last, rate, now) is Some,
    ensures
        ({
            let a = accrued(debt, total_interest, last, rate, now)->0;
            accrued(
                a.debt_balance,
                a.total_interest_accrued,
                a.last_interest_accrued_at,
                rate,
                now,
            ) == Some(Accrual { interest: 0, ..a })
        }),
{
    if last < now {
        law_accrual_within_time(debt, total_interest, last, rate, now);
    }
}

proof fn lemma_floor_div_antitone(v: int, r1: int, r2: int)
    requires
        0 <= v,
        0 < r1 <= r2,
    ensures
        v / r2 <= v / r1,
{
    vstd::arithmetic::div_mod::lemma_div_is_ordered_by_denominator(v, r1, r2);
}

/// A stricter ratio bears less debt: what may be borrowed at the collateral ratio never exceeds
/// the limit at a smaller liquidation ratio.
pub proof fn law_stricter_ratio_bears_less(
    strict: Ratio,
    loose: Ratio,
    price: Ratio,
    collateral: Balance,
)
    requires
        0 < loose.inner <= strict.inner,
        debt_limit_of(loose, price, collateral) is Some,
    ensures
        debt_limit_of(strict, price, collateral) matches Some(l) && l <= debt_limit_of(
            loose,
            price,
            collateral,
        )->0,
{
    let v = share_of(price, collateral)->0;
    lemma_floor_div_antitone(v * RATIO_ONE, loose.inner as int, strict.inner as int);
}

proof fn lemma_share_monotone(ratio: Ratio, a: Balance, b: Balance)
    requires
        a <= b,
        share_of(ratio, b) is Some,
    ensures
        share_of(ratio, a) matches Some(x) && x <= share_of(ratio, b)->0,
{
    assert(0 <= ratio.inner * a <= ratio.inner * b) by (nonlinear_arith)
        requires
            0 <= a <= b,
            ratio.inner >= 0,
    ;
    assert(ratio.inner * a / RATIO_ONE as int <= ratio.inner * b / RATIO_ONE as int);
}

/// More collateral never bears less debt.
pub proof fn law_limit_grows_with_collateral(ratio: Ratio, price: Ratio, a: Balance, b: Balance)
    requires
        a <= b,
        debt_limit_of(ratio, price, b) is Some,
    ensures
        debt_limit_of(ratio, price, a) matches Some(l) && l <= debt_limit_of(ratio, price, b)->0,
{
    lemma_share_monotone(price, a, b);
    let va = share_of(price, a)->0;
    let vb = share_of(price, b)->0;
    assert(va * RATIO_ONE <= vb * RATIO_ONE);
    vstd::arithmetic::div_mod::lemma_div_is_ordered(
        va * RATIO_ONE,
        vb * RATIO_ONE,
        ratio.inner as int,
    );
}

/// A payment split into interest and principal.
#[derive(Debug, Clone, Copy, PartialEq, Eq, Structural)]
pub struct DebtPaymentBreakdown {
    pub principal_payment: Balance,
    pub interest_payment: Balance,
}

/// A payment pays outstanding interest first, and principal with what is left.
pub open spec fn payment_split(debt: Balance, borrowed: Balance, amount: Balance) ->
    DebtPaymentBreakdown {
    let outstanding = debt - borrowed;
    let interest = if amount <= outstanding {
        amount as int
    } else {
        outstanding
    };
    DebtPaymentBreakdown {
        principal_payment: (amount - interest) as Balance,
        interest_payment: interest as Balance,
    }
}

/// A payment within a debt that covers its principal is spent whole, and leaves principal within
/// debt.
pub proof fn law_payment_conserves(debt: Balance, borrowed: Balance, amount: Balance)
    requires
        borrowed <= debt,
        amount <= debt,
    ensures
        ({
            let p = payment_split(debt, borrowed, amount);
            &&& p.principal_payment + p.interest_payment == amount
            &&& p.principal_payment <= borrowed
            &&& p.interest_payment <= debt - borrowed
            &&& borrowed - p.principal_payment <= debt - amount
        }),
{
}

/// TAO per alpha for a price in rao per alpha.
pub open spec fn alpha_ratio(alpha_price_rao: u64) -> Ratio {
    Ratio { inner: (alpha_price_rao * RATIO_ONE / RAO_PER_ALPHA_UNIT as int) as u128 }
}

/// A debt compounds hourly and is never charged more than that: what it has grown to is at most
/// `debt * (1 + rate / 8760)^hours`.
pub proof fn law_debt_is_at_most_compound(debt: Balance, rate: Ratio, hours: nat)
    ensures
        grown_debt(debt, rate, hours) matches Some(next) ==> next * pow(RATIO_ONE as int, hours)
            <= debt * pow(hourly_factor(rate), hours),
{
    let factor = hourly_factor(rate);
    if grown_debt(debt, rate, hours) is Some {
        let next = grown_debt(debt, rate, hours)->0 as int;
        let growth = pow_spec(RATIO_ONE, factor as u128, hours)->0 as int;
        law_pow_is_at_most_exact(factor as u128, hours);
        lemma_pow_positive(RATIO_ONE as int, hours);
        let one = RATIO_ONE as int;
        let u = pow(one, hours);
        let v = pow(factor, hours);
        assert(growth * debt >= 0) by (nonlinear_arith)
            requires
                growth >= 0,
                debt >= 0,
        ;
        assert(next * one <= growth * debt);
        assert(next * u <= debt * v) by (nonlinear_arith)
            requires
                next * one <= growth * debt,
                growth * u <= one * v,
                0 < one,
                0 < u,
                0 <= debt,
        {
            assert(next * one * u <= growth * debt * u);
            assert((growth * u) * debt <= (one * v) * debt);
            assert(one * (next * u) <= one * (debt * v));
        }
    }
}

/// A debt compounds hourly and falls short of that only by rounding: one part in `RATIO_ONE` for
/// each hour, and less than one unit at the end. Only a debt at the largest balance stays behind.
pub proof fn law_debt_is_close_to_compound(debt: Balance, rate: Ratio, hours: nat)
    ensures
        grown_debt(debt, rate, hours) matches Some(next) ==> next < Balance::MAX ==> (next + 1) * (
        pow(RATIO_ONE as int, hours) * pow(RATIO_ONE as int, hours)) > debt * (pow(
            hourly_factor(rate),
            hours,
        ) * pow(RATIO_ONE - 1, hours)),
{
    let factor = hourly_factor(rate);
    let grown = grown_debt(debt, rate, hours);
    if grown is Some && grown->0 < Balance::MAX {
        let next = grown->0 as int;
        let growth = pow_spec(RATIO_ONE, factor as u128, hours)->0 as int;
        law_pow_is_close_to_exact(factor as u128, hours);
        lemma_pow_positive(RATIO_ONE as int, hours);
        let one = RATIO_ONE as int;
        let u = pow(one, hours);
        let v = pow(factor, hours) * pow(one - 1, hours);
        assert(growth * debt >= 0) by (nonlinear_arith)
            requires
                growth >= 0,
                debt >= 0,
        ;
        assert(growth * debt < (next + 1) * one);
        assert((next + 1) * (u * u) > debt * v) by (nonlinear_arith)
            requires
                growth * debt < (next + 1) * one,
                growth * (u * u) >= one * v,
                0 < one,
                0 < u,
                0 <= debt,
        {
            let uu = u * u;
            assert(0 < uu);
            assert((next + 1) * one * uu > growth * debt * uu);
            assert((growth * uu) * debt >= (one * v) * debt);
            assert(one * ((next + 1) * uu) > one * (debt * v));
        }
    }
}

/// A debt grows with its size, with the rate and with the hours. Where the larger debt can be
/// charged, so can the smaller.
pub proof fn law_debt_is_monotone(
    debt: Balance,
    debt2: Balance,
    rate: Ratio,
    rate2: Ratio,
    hours: nat,
    hours2: nat,
)
    requires
        debt <= debt2,
        rate.inner <= rate2.inner,
        hours <= hours2,
    ensures
        grown_debt(debt2, rate2, hours2) matches Some(next2) ==> (grown_debt(
            debt,
            rate,
            hours,
        ) matches Some(next) && next <= next2),
{
    if grown_debt(debt2, rate2, hours2) is Some {
        let factor = hourly_factor(rate);
        let factor2 = hourly_factor(rate2);
        assert(factor <= factor2);
        law_pow_grows_with_exponent(factor2 as u128, hours, hours2);
        law_pow_grows_with_base(factor as u128, factor2 as u128, hours);
        let growth = pow_spec(RATIO_ONE, factor as u128, hours)->0 as int;
        let growth2 = pow_spec(RATIO_ONE, factor2 as u128, hours2)->0 as int;
        assert(0 <= growth * debt <= growth2 * debt2) by (nonlinear_arith)
            requires
                0 <= growth <= growth2,
                0 <= debt <= debt2,
        ;
    }
}

} // verus!
