//! The rules of lending as relations between what goes in and what comes out.
use vstd::prelude::*;
use vstd::arithmetic::power::{lemma_pow_positive, pow};
use crate::account::{Balance, Timestamp};
use crate::fixed_point::{is_floor, lemma_division_rounds_down};
use crate::lending::{
    accrued, alpha_ratio, debt_limit_of, grown_debt, hourly_factor, law_debt_grows,
    law_debt_is_at_most_compound, law_debt_is_close_to_compound, min_bid_of, payment_split,
    share_of, weighted_time, whole_hours, Accrual,
};
use crate::ratio::{pow_spec, Ratio};
use crate::ratio_laws::{
    law_pow_is_at_most_exact, law_pow_is_there_when_it_fits, law_pow_small_exponents,
};

verus! {

/// A share of an amount is the ratio times the amount, rounded down; it is absent only where that
/// exceeds every balance.
pub proof fn law_share_is_exact(ratio: Ratio, amount: Balance)
    ensures
        match share_of(ratio, amount) {
            Some(part) => is_floor(part as int, ratio.inner * amount, 1_000_000_000_000_000_000),
            None => ratio.inner * amount >= 0x1_0000_0000_0000_0000int * 1_000_000_000_000_000_000,
        },
{
    let product = ratio.inner * amount;
    assert(product >= 0) by (nonlinear_arith)
        requires
            product == ratio.inner * amount,
            ratio.inner >= 0,
            amount >= 0,
    ;
    lemma_division_rounds_down(product, 1_000_000_000_000_000_000);
}

/// Collateral bears a debt exactly when the debt times the ratio is at most the collateral's
/// value at the price, rounded down. There is no limit only where the value or the limit exceeds
/// every balance, or the ratio is zero.
pub proof fn law_collateral_bears_debt(
    ratio: Ratio,
    price: Ratio,
    collateral: Balance,
    value: int,
    debt: int,
)
    requires
        is_floor(value, price.inner * collateral, 1_000_000_000_000_000_000),
    ensures
        debt_limit_of(ratio, price, collateral) matches Some(limit) ==> {
            debt <= limit <==> debt * ratio.inner <= value * 1_000_000_000_000_000_000
        },
        debt_limit_of(ratio, price, collateral) is None <==> ratio.inner == 0 || value
            > 0xffff_ffff_ffff_ffff || value * 1_000_000_000_000_000_000
            >= 0x1_0000_0000_0000_0000int * ratio.inner,
        debt_limit_of(ratio, price, collateral) is Some ==> 0 <= value <= 0xffff_ffff_ffff_ffff,
{
    let one = 1_000_000_000_000_000_000int;
    let product = price.inner * collateral;
    assert(product >= 0) by (nonlinear_arith)
        requires
            product == price.inner * collateral,
            price.inner >= 0,
            collateral >= 0,
    ;
    lemma_division_rounds_down(product, one);
    let r = ratio.inner as int;
    if r > 0 && value <= 0xffff_ffff_ffff_ffff {
        lemma_division_rounds_down(value * one, r);
        let limit = value * one / r;
        assert(limit >= 0);
        assert(debt <= limit <==> debt * r <= value * one) by (nonlinear_arith)
            requires
                limit * r <= value * one < (limit + 1) * r,
                r > 0,
        ;
        assert(limit > 0xffff_ffff_ffff_ffff <==> value * one >= 0x1_0000_0000_0000_0000int * r)
            by (nonlinear_arith)
            requires
                limit * r <= value * one < (limit + 1) * r,
                r > 0,
        ;
        assert(share_of(price, collateral) == Some(value as Balance));
    }
}

/// The least bid is the debt and the fee's share of it, rounded down; it is absent only where
/// that exceeds every balance.
pub proof fn law_least_bid_is_exact(fee: Ratio, debt: Balance)
    ensures
        match min_bid_of(fee, debt) {
            Some(bid) => is_floor(bid - debt, fee.inner * debt, 1_000_000_000_000_000_000),
            None => debt * 1_000_000_000_000_000_000 + fee.inner * debt
                >= 0x1_0000_0000_0000_0000int * 1_000_000_000_000_000_000,
        },
{
    let product = fee.inner * debt;
    assert(product >= 0) by (nonlinear_arith)
        requires
            product == fee.inner * debt,
            fee.inner >= 0,
            debt >= 0,
    ;
    lemma_division_rounds_down(product, 1_000_000_000_000_000_000);
}

/// A price in rao per alpha is that many billionths of a TAO per alpha.
pub proof fn law_rao_are_billionths(alpha_price_rao: u64)
    ensures
        alpha_ratio(alpha_price_rao).inner == alpha_price_rao * 1_000_000_000,
{
    assert(alpha_price_rao * 1_000_000_000_000_000_000 / 1_000_000_000 == alpha_price_rao
        * 1_000_000_000);
}

/// The time from which a grown debt is charged is the average of the two times, weighted by the
/// old debt and the new, rounded down. Without old debt or without new it stays.
pub proof fn law_weighted_time_is_the_average(
    last: Timestamp,
    debt: Balance,
    now: Timestamp,
    amount: Balance,
)
    ensures
        debt == 0 || amount == 0 ==> weighted_time(last, debt, now, amount) == Some(last),
        debt > 0 && amount > 0 && debt + amount > 0xffff_ffff_ffff_ffff ==> weighted_time(
            last,
            debt,
            now,
            amount,
        ) is None,
        debt > 0 && amount > 0 && debt + amount <= 0xffff_ffff_ffff_ffff ==> (weighted_time(
            last,
            debt,
            now,
            amount,
        ) matches Some(t) && is_floor(t as int, last * debt + now * amount, debt + amount)),
{
    if debt > 0 && amount > 0 && debt + amount <= 0xffff_ffff_ffff_ffff {
        let sum = last * debt + now * amount;
        let all = debt + amount;
        assert(0 <= sum <= 0xffff_ffff_ffff_ffff * all) by (nonlinear_arith)
            requires
                sum == last * debt + now * amount,
                all == debt + amount,
                0 <= last <= 0xffff_ffff_ffff_ffff,
                0 <= now <= 0xffff_ffff_ffff_ffff,
                debt >= 0,
                amount >= 0,
        ;
        lemma_division_rounds_down(sum, all);
        let t = sum / all;
        assert(t <= 0xffff_ffff_ffff_ffff) by (nonlinear_arith)
            requires
                t * all <= sum,
                sum <= 0xffff_ffff_ffff_ffff * all,
                all > 0,
        ;
    }
}

/// A payment pays the outstanding interest before any principal.
pub proof fn law_interest_is_paid_first(debt: Balance, borrowed: Balance, amount: Balance)
    requires
        borrowed <= debt,
    ensures
        ({
            let p = payment_split(debt, borrowed, amount);
            &&& p.interest_payment + p.principal_payment == amount
            &&& p.interest_payment <= debt - borrowed
            &&& p.principal_payment > 0 ==> p.interest_payment == debt - borrowed
        }),
{
}

/// The hourly factor of an annual rate is one and the 8760th part of the rate, rounded down.
pub proof fn law_hourly_factor_is_exact(rate: Ratio)
    ensures
        is_floor(hourly_factor(rate) - 1_000_000_000_000_000_000, rate.inner as int, 8_760),
{
    lemma_division_rounds_down(rate.inner as int, 8_760);
}

/// A debt compounds hourly: with `f` the hourly factor, it grows to at most `debt * f^hours`, and
/// falls short of that only by rounding, one part in `10^18` for each hour and less than one unit
/// at the end. In the first hour it grows to the factor's share of it, rounded down. A debt at
/// the largest balance grows no more.
pub proof fn law_debt_compounds_hourly(debt: Balance, rate: Ratio, hours: nat, f: int)
    requires
        is_floor(f - 1_000_000_000_000_000_000, rate.inner as int, 8_760),
    ensures
        ({
            let one = 1_000_000_000_000_000_000int;
            &&& grown_debt(debt, rate, hours) matches Some(next) ==> {
                &&& debt <= next
                &&& next * pow(one, hours) <= debt * pow(f, hours)
                &&& next < 0xffff_ffff_ffff_ffff ==> (next + 1) * (pow(one, hours) * pow(
                    one,
                    hours,
                )) > debt * (pow(f, hours) * pow(one - 1, hours))
            }
            &&& grown_debt(debt, rate, 0) == Some(debt)
            &&& f <= 0xffff_ffff_ffff_ffff_ffff_ffff_ffff_ffff && debt * f < 0xffff_ffff_ffff_ffff
                * one ==> (grown_debt(debt, rate, 1) matches Some(next) && is_floor(
                next as int,
                debt * f,
                one,
            ))
        }),
{
    let one = 1_000_000_000_000_000_000int;
    lemma_division_rounds_down(rate.inner as int, 8_760);
    assert(f == hourly_factor(rate));
    law_debt_grows(debt, rate, hours);
    law_debt_is_at_most_compound(debt, rate, hours);
    law_debt_is_close_to_compound(debt, rate, hours);
    law_pow_small_exponents(f as u128);
    assert(one * debt / one == debt) by (nonlinear_arith)
        requires
            one > 0,
    ;
    let product = f * debt;
    assert(product == debt * f) by (nonlinear_arith)
        requires
            product == f * debt,
    ;
    assert(product >= 0) by (nonlinear_arith)
        requires
            product == f * debt,
            f >= 0,
            debt >= 0,
    ;
    lemma_division_rounds_down(product, one);
}

/// Interest is charged for the whole hours that have passed, at the given rate: the debt and the
/// interest on record grow by the same, and the clock moves past the hours that were charged.
/// Without debt or without a rate only the clock moves; within the first hour nothing does.
pub proof fn law_accrual_charges_whole_hours(
    debt: Balance,
    total_interest: Balance,
    last: Timestamp,
    rate: Ratio,
    now: Timestamp,
    hours: nat,
)
    requires
        last <= now ==> is_floor(hours as int, now - last, 3_600_000),
    ensures
        ({
            let r = accrued(debt, total_interest, last, rate, now);
            let idle = debt == 0 || rate.inner == 0;
            let unchanged = Accrual {
                debt_balance: debt,
                total_interest_accrued: total_interest,
                last_interest_accrued_at: last,
                interest: 0,
            };
            &&& now <= last ==> r == Some(unchanged)
            &&& now > last && idle ==> r == Some(
                Accrual { last_interest_accrued_at: now, ..unchanged },
            )
            &&& now > last && !idle && hours == 0 ==> r == Some(unchanged)
            &&& now > last && !idle && hours > 0 ==> match grown_debt(debt, rate, hours) {
                None => r is None,
                Some(next) => match r {
                    None => total_interest + (next - debt) > 0xffff_ffff_ffff_ffff,
                    Some(a) => {
                        &&& a.debt_balance == next
                        &&& a.interest == next - debt
                        &&& a.total_interest_accrued == total_interest + (next - debt)
                        &&& a.last_interest_accrued_at == last + hours * 3_600_000
                    },
                },
            }
        }),
{
    if last <= now {
        lemma_division_rounds_down(now - last, 3_600_000);
        assert(hours == whole_hours(last, now));
        law_debt_grows(debt, rate, hours);
    }
}

/// The debt that collateral bears is its value divided by the ratio, both rounded down.
pub proof fn law_debt_limit_is_exact(ratio: Ratio, price: Ratio, collateral: Balance, value: int)
    requires
        is_floor(value, price.inner * collateral, 1_000_000_000_000_000_000),
    ensures
        debt_limit_of(ratio, price, collateral) matches Some(limit) ==> is_floor(
            limit as int,
            value * 1_000_000_000_000_000_000,
            ratio.inner as int,
        ),
{
    match debt_limit_of(ratio, price, collateral) {
        Some(limit) => {
            law_collateral_bears_debt(ratio, price, collateral, value, limit as int);
            law_collateral_bears_debt(ratio, price, collateral, value, limit + 1);
        },
        None => {},
    }
}

/// A debt is charged for any number of hours and at any rate, as long as what it compounds to
/// fits a balance.
pub proof fn law_debt_that_fits_is_charged(debt: Balance, rate: Ratio, hours: nat, f: int)
    requires
        is_floor(f - 1_000_000_000_000_000_000, rate.inner as int, 8_760),
        debt > 0,
        debt * pow(f, hours) <= 0xffff_ffff_ffff_ffff * pow(1_000_000_000_000_000_000, hours),
    ensures
        grown_debt(debt, rate, hours) is Some,
{
    let one = 1_000_000_000_000_000_000int;
    lemma_division_rounds_down(rate.inner as int, 8_760);
    assert(f == hourly_factor(rate));
    let u = pow(one, hours);
    let v = pow(f, hours);
    lemma_pow_positive(one, hours);
    lemma_pow_positive(f, hours);
    assert(one * v <= u128::MAX * u) by (nonlinear_arith)
        requires
            debt * v <= 0xffff_ffff_ffff_ffff * u,
            debt >= 1,
            v > 0,
            u > 0,
            one == 1_000_000_000_000_000_000,
    {
        assert(v <= debt * v);
        assert(one * v <= one * (0xffff_ffff_ffff_ffff * u));
        assert(one * 0xffff_ffff_ffff_ffff <= u128::MAX);
        assert((one * 0xffff_ffff_ffff_ffff) * u <= u128::MAX * u);
    }
    law_pow_is_there_when_it_fits(f as u128, hours);
    law_pow_is_at_most_exact(f as u128, hours);
    let growth = pow_spec(1_000_000_000_000_000_000, f as u128, hours)->0 as int;
    let product = growth * debt;
    assert(0 <= product <= one * 0xffff_ffff_ffff_ffff) by (nonlinear_arith)
        requires
            product == growth * debt,
            growth * u <= one * v,
            debt * v <= 0xffff_ffff_ffff_ffff * u,
            growth >= 0,
            debt >= 1,
            u > 0,
            one > 0,
    {
        assert((growth * u) * debt <= (one * v) * debt);
        assert(one * (debt * v) <= one * (0xffff_ffff_ffff_ffff * u));
        assert(product * u <= (one * 0xffff_ffff_ffff_ffff) * u);
    }
    lemma_division_rounds_down(product, one);
}

} // verus!
