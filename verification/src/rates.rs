//! The arithmetic of an exchange at two published rates.

use vstd::prelude::*;

use crate::types::SwapError;

verus! {

/// Whether a number is an amount.
pub open spec fn is_amount(n: int) -> bool {
    i128::MIN <= n <= i128::MAX
}

/// A quotient by a positive number, rounded toward zero.
pub open spec fn quotient_toward_zero(n: int, d: int) -> int
    recommends
        d > 0,
{
    if n >= 0 {
        n / d
    } else {
        -((-n) / d)
    }
}

/// What `amount` at one rate is worth at another: `amount * rate_to /
/// rate_from`, rounded toward zero, if the product is an amount.
pub open spec fn exchanged(
    amount: i128,
    rate_from: i128,
    rate_to: i128,
) -> Result<i128, SwapError> {
    if is_amount(amount * rate_to) {
        Ok(quotient_toward_zero(amount * rate_to, rate_from as int) as i128)
    } else {
        Err(SwapError::AmountOverflow)
    }
}

/// Converts an amount from one currency to another.
pub fn exchange(amount: i128, rate_from: i128, rate_to: i128) -> (worth: Result<i128, SwapError>)
    requires
        rate_from > 0,
    ensures
        worth == exchanged(amount, rate_from, rate_to),
        worth is Ok <==> i128::MIN <= amount * rate_to <= i128::MAX,
        worth matches Err(error) ==> error == SwapError::AmountOverflow,
        worth matches Ok(number) ==> {
            &&& amount * rate_to >= 0 ==> 0 <= amount * rate_to - number * rate_from < rate_from
            &&& amount * rate_to <= 0 ==> -rate_from < amount * rate_to - number * rate_from <= 0
        },
{
    proof {
        law_exchange_is_exact(amount, rate_from, rate_to);
    }
    match amount.checked_mul(rate_to) {
        Some(product) => {
            Ok(product / rate_from)
        },
        None => Err(SwapError::AmountOverflow),
    }
}

/// A quotient toward zero is off by less than the divisor, on the side of
/// zero.
proof fn lemma_quotient_bounds(n: int, d: int)
    requires
        d > 0,
    ensures
        n >= 0 ==> 0 <= n - quotient_toward_zero(n, d) * d < d,
        n <= 0 ==> -d < n - quotient_toward_zero(n, d) * d <= 0,
        n >= 0 ==> 0 <= quotient_toward_zero(n, d) <= n,
        n <= 0 ==> n <= quotient_toward_zero(n, d) <= 0,
{
    let m = if n >= 0 {
        n
    } else {
        -n
    };
    let q = m / d;
    assert(0 <= m - q * d < d && 0 <= q <= m) by (nonlinear_arith)
        requires
            m >= 0,
            d > 0,
            q == m / d,
    ;
    assert((-q) * d == -(q * d)) by (nonlinear_arith);
}

/// An exchange at any rates succeeds exactly if the product of the amount and
/// the second rate fits in 128 bits. The worth is then off the product over
/// the first rate by less than one unit, on the side of zero.
pub proof fn law_exchange_is_exact(amount: i128, rate_from: i128, rate_to: i128)
    requires
        rate_from > 0,
    ensures
        match exchanged(amount, rate_from, rate_to) {
            Ok(worth) => {
                let product = amount * rate_to;
                &&& -0x8000_0000_0000_0000_0000_0000_0000_0000int <= product
                &&& product <= 0x7fff_ffff_ffff_ffff_ffff_ffff_ffff_ffffint
                &&& product >= 0 ==> 0 <= product - worth * rate_from < rate_from
                &&& product <= 0 ==> -rate_from < product - worth * rate_from <= 0
            },
            Err(error) => {
                &&& error == SwapError::AmountOverflow
                &&& amount * rate_to < -0x8000_0000_0000_0000_0000_0000_0000_0000int || amount
                    * rate_to > 0x7fff_ffff_ffff_ffff_ffff_ffff_ffff_ffffint
            },
        },
{
    lemma_quotient_bounds(amount * rate_to, rate_from as int);
}

/// A number is an amount exactly if it fits in 128 bits, with its sign.
pub proof fn law_amounts_fit_in_128_bits(n: int)
    ensures
        is_amount(n) <==> -0x8000_0000_0000_0000_0000_0000_0000_0000int <= n
            <= 0x7fff_ffff_ffff_ffff_ffff_ffff_ffff_ffffint,
{
}

/// A worth is the exact product over the rate, rounded toward zero: it is
/// never more than the exact quotient in size, and short of it by less than
/// one unit.
pub proof fn law_exchange_rounds_toward_zero(amount: i128, rate_from: i128, rate_to: i128)
    requires
        rate_from > 0,
        rate_to > 0,
        is_amount(amount * rate_to),
    ensures
        exchanged(amount, rate_from, rate_to) matches Ok(worth) && {
            &&& amount >= 0 ==> worth >= 0 && 0 <= amount * rate_to - worth * rate_from < rate_from
            &&& amount <= 0 ==> worth <= 0 && -rate_from < amount * rate_to - worth * rate_from <= 0
        },
{
    lemma_quotient_bounds(amount * rate_to, rate_from as int);
    assert((amount >= 0 ==> amount * rate_to >= 0) && (amount <= 0 ==> amount * rate_to <= 0))
        by (nonlinear_arith)
        requires
            rate_to > 0,
    ;
}

/// Between currencies of one rate, an amount keeps its number.
pub proof fn law_exchange_at_one_rate_keeps_the_amount(amount: i128, rate: i128)
    requires
        rate > 0,
        is_amount(amount * rate),
    ensures
        exchanged(amount, rate, rate) == Ok::<i128, SwapError>(amount),
{
    lemma_quotient_bounds(amount * rate, rate as int);
    let worth = quotient_toward_zero(amount * rate, rate as int);
    assert(worth == amount) by (nonlinear_arith)
        requires
            rate > 0,
            -rate < amount * rate - worth * rate < rate,
    ;
}

/// A larger amount is worth no less.
pub proof fn law_exchange_is_monotone(less: i128, more: i128, rate_from: i128, rate_to: i128)
    requires
        rate_from > 0,
        rate_to > 0,
        less <= more,
        is_amount(less * rate_to),
        is_amount(more * rate_to),
    ensures
        exchanged(less, rate_from, rate_to)->Ok_0 <= exchanged(more, rate_from, rate_to)->Ok_0,
{
    law_exchange_rounds_toward_zero(less, rate_from, rate_to);
    law_exchange_rounds_toward_zero(more, rate_from, rate_to);
    let low = exchanged(less, rate_from, rate_to)->Ok_0;
    let high = exchanged(more, rate_from, rate_to)->Ok_0;
    assert(less * rate_to <= more * rate_to) by (nonlinear_arith)
        requires
            less <= more,
            rate_to > 0,
    ;
    if low > high {
        assert(low * rate_from >= high * rate_from + rate_from) by (nonlinear_arith)
            requires
                low >= high + 1,
                rate_from > 0,
        ;
    }
}

/// A number that is off a quotient by less than the divisor, on the side of
/// zero, is the quotient toward zero.
proof fn lemma_quotient_is_unique(n: int, d: int, q: int)
    requires
        d > 0,
        n >= 0 ==> 0 <= n - q * d < d,
        n <= 0 ==> -d < n - q * d <= 0,
    ensures
        q == quotient_toward_zero(n, d),
{
    lemma_quotient_bounds(n, d);
    let truth = quotient_toward_zero(n, d);
    assert(q == truth) by (nonlinear_arith)
        requires
            d > 0,
            -d < q * d - truth * d < d,
    ;
}

/// An exchange that can be made can be made back. The way back never gains
/// anything; what it loses, at the second rate, is less than the two rates
/// together; and it loses nothing where the first exchange needed no
/// rounding.
pub proof fn law_exchange_there_and_back(amount: i128, rate_from: i128, rate_to: i128)
    requires
        rate_from > 0,
        rate_to > 0,
        amount >= 0,
        is_amount(amount * rate_to),
    ensures
        exchanged(amount, rate_from, rate_to) matches Ok(worth) && (exchanged(
            worth,
            rate_to,
            rate_from,
        ) matches Ok(back) && {
            &&& 0 <= back <= amount
            &&& (amount - back) * rate_to < rate_from + rate_to
            &&& (amount * rate_to) % (rate_from as int) == 0 ==> back == amount
        }),
{
    law_exchange_rounds_toward_zero(amount, rate_from, rate_to);
    let worth = exchanged(amount, rate_from, rate_to)->Ok_0;
    assert(worth * rate_from >= 0) by (nonlinear_arith)
        requires
            worth >= 0,
            rate_from > 0,
    ;
    law_exchange_rounds_toward_zero(worth, rate_to, rate_from);
    let back = exchanged(worth, rate_to, rate_from)->Ok_0;
    assert(back <= amount) by (nonlinear_arith)
        requires
            rate_to > 0,
            back * rate_to <= worth * rate_from,
            worth * rate_from <= amount * rate_to,
    ;
    assert((amount - back) * rate_to == amount * rate_to - back * rate_to) by (nonlinear_arith);
    if (amount * rate_to) % (rate_from as int) == 0 {
        let product = amount * rate_to;
        assert(product == worth * rate_from) by (nonlinear_arith)
            requires
                rate_from > 0,
                product >= 0,
                product % (rate_from as int) == 0,
                0 <= product - worth * rate_from < rate_from,
        ;
        assert(back == amount) by (nonlinear_arith)
            requires
                rate_to > 0,
                0 <= amount * rate_to - back * rate_to < rate_to,
        ;
    }
}

/// An amount exchanged in two parts never brings more than in one piece, and
/// at most one unit less.
pub proof fn law_exchange_in_parts(
    one: i128,
    other: i128,
    whole: i128,
    rate_from: i128,
    rate_to: i128,
)
    requires
        rate_from > 0,
        rate_to > 0,
        one >= 0,
        other >= 0,
        whole == one + other,
        is_amount(whole * rate_to),
    ensures
        exchanged(one, rate_from, rate_to) matches Ok(first) && (exchanged(
            other,
            rate_from,
            rate_to,
        ) matches Ok(second) && (exchanged(whole, rate_from, rate_to) matches Ok(worth) && first
            + second <= worth <= first + second + 1)),
{
    assert(whole * rate_to == one * rate_to + other * rate_to && one * rate_to >= 0 && other
        * rate_to >= 0) by (nonlinear_arith)
        requires
            whole == one + other,
            one >= 0,
            other >= 0,
            rate_to > 0,
    ;
    law_exchange_rounds_toward_zero(one, rate_from, rate_to);
    law_exchange_rounds_toward_zero(other, rate_from, rate_to);
    law_exchange_rounds_toward_zero(whole, rate_from, rate_to);
    let first = exchanged(one, rate_from, rate_to)->Ok_0;
    let second = exchanged(other, rate_from, rate_to)->Ok_0;
    let worth = exchanged(whole, rate_from, rate_to)->Ok_0;
    assert(first + second <= worth <= first + second + 1) by (nonlinear_arith)
        requires
            rate_from > 0,
            0 <= (one * rate_to + other * rate_to) - worth * rate_from < rate_from,
            0 <= one * rate_to - first * rate_from < rate_from,
            0 <= other * rate_to - second * rate_from < rate_from,
    ;
}

/// An exchange by way of a third rate never brings more than the direct one.
pub proof fn law_exchange_by_way_of_another(
    amount: i128,
    rate_from: i128,
    rate_between: i128,
    rate_to: i128,
    between: i128,
    routed: i128,
    direct: i128,
)
    requires
        rate_from > 0,
        rate_between > 0,
        rate_to > 0,
        amount >= 0,
        exchanged(amount, rate_from, rate_between) == Ok::<i128, SwapError>(between),
        exchanged(between, rate_between, rate_to) == Ok::<i128, SwapError>(routed),
        exchanged(amount, rate_from, rate_to) == Ok::<i128, SwapError>(direct),
    ensures
        routed <= direct,
{
    law_exchange_rounds_toward_zero(amount, rate_from, rate_between);
    law_exchange_rounds_toward_zero(between, rate_between, rate_to);
    law_exchange_rounds_toward_zero(amount, rate_from, rate_to);
    let (a, f, m, t) = (amount as int, rate_from as int, rate_between as int, rate_to as int);
    let (x, y) = (between as int, routed as int);
    assert((y * m) * f <= (x * t) * f) by (nonlinear_arith)
        requires
            y * m <= x * t,
            f > 0,
    ;
    assert((x * f) * t <= (a * m) * t) by (nonlinear_arith)
        requires
            x * f <= a * m,
            t > 0,
    ;
    assert((x * t) * f == (x * f) * t) by (nonlinear_arith);
    assert((y * m) * f == (y * f) * m) by (nonlinear_arith);
    assert((a * m) * t == (a * t) * m) by (nonlinear_arith);
    assert(y * f <= a * t) by (nonlinear_arith)
        requires
            m > 0,
            (y * f) * m <= (a * t) * m,
    ;
    assert(routed <= direct) by (nonlinear_arith)
        requires
            f > 0,
            y == routed,
            y * f <= a * t,
            a * t - direct * f < f,
    ;
}

/// Only the ratio of the two rates counts: both times one factor give the
/// same.
pub proof fn law_exchange_at_scaled_rates(
    amount: i128,
    rate_from: i128,
    rate_to: i128,
    factor: int,
    scaled_from: i128,
    scaled_to: i128,
)
    requires
        rate_from > 0,
        rate_to > 0,
        factor > 0,
        scaled_from == rate_from * factor,
        scaled_to == rate_to * factor,
        is_amount(amount * scaled_to),
    ensures
        exchanged(amount, rate_from, rate_to) is Ok,
        exchanged(amount, scaled_from, scaled_to) == exchanged(amount, rate_from, rate_to),
{
    let product = amount * rate_to;
    let scaled = amount * scaled_to;
    assert(scaled == product * factor) by (nonlinear_arith)
        requires
            scaled == amount * scaled_to,
            scaled_to == rate_to * factor,
            product == amount * rate_to,
    ;
    assert((product >= 0 ==> 0 <= product <= scaled) && (product <= 0 ==> scaled <= product <= 0))
        by (nonlinear_arith)
        requires
            scaled == product * factor,
            factor > 0,
    ;
    let d = rate_from as int;
    let q = quotient_toward_zero(product, d);
    lemma_quotient_bounds(product, d);
    let rest = product - q * d;
    assert(scaled - q * (d * factor) == rest * factor) by (nonlinear_arith)
        requires
            scaled == product * factor,
            rest == product - q * d,
    ;
    assert((rest >= 0 ==> 0 <= rest * factor) && (rest <= 0 ==> rest * factor <= 0) && (rest < d
        ==> rest * factor < d * factor) && (-d < rest ==> -(d * factor) < rest * factor))
        by (nonlinear_arith)
        requires
            factor > 0,
    ;
    assert(product == 0 ==> scaled == 0);
    assert(d * factor > 0);
    lemma_quotient_is_unique(scaled, d * factor, q);
}

} // verus!
