use vstd::arithmetic::div_mod::{lemma_div_of0, lemma_fundamental_div_mod, lemma_mod_bound};
use vstd::prelude::*;

verus! {

/// Whether `v` can be held in a signed 128-bit integer.
pub open spec fn fits_i128(v: int) -> bool {
    i128::MIN <= v <= i128::MAX
}

/// The quotient of `n` by `d`, rounded toward zero.
///
/// On non-negative `n` and positive `d` this is the floor of `n / d`; with a
/// negative operand the magnitudes are divided and the sign is put back.
pub open spec fn truncating_div(n: int, d: int) -> int
    recommends
        d != 0,
{
    if n >= 0 {
        if d > 0 {
            n / d
        } else {
            -(n / (-d))
        }
    } else {
        if d > 0 {
            -((-n) / d)
        } else {
            (-n) / (-d)
        }
    }
}

/// `amount * numerator / denominator`, rounded toward zero, where every
/// intermediate value fits in 128 bits; `None` where the denominator is zero
/// or the product or the quotient does not fit.
pub open spec fn scaled_amount(amount: int, numerator: int, denominator: int) -> Option<int> {
    if denominator == 0 {
        None
    } else if !fits_i128(amount * numerator) {
        None
    } else if !fits_i128(truncating_div(amount * numerator, denominator)) {
        None
    } else {
        Some(truncating_div(amount * numerator, denominator))
    }
}

/// Scales `amount` by the ratio `numerator / denominator`: multiplies first,
/// then divides with rounding toward zero. Gives `None` on a zero
/// denominator and on overflow of the product or the quotient.
pub fn scale_amount(amount: i128, numerator: i128, denominator: i128) -> (scaled: Option<i128>)
    ensures
        match scaled {
            Some(v) => scaled_amount(amount as int, numerator as int, denominator as int) == Some(
                v as int,
            ),
            None => scaled_amount(amount as int, numerator as int, denominator as int) is None,
        },
{
    match amount.checked_mul(numerator) {
        None => None,
        Some(product) => {
            proof {
                if denominator != 0 {
                    lemma_div_of0(denominator as int);
                    lemma_div_of0(-(denominator as int));
                }
            }
            product.checked_div(denominator)
        },
    }
}

/// Rounding toward zero: the quotient times the divisor never passes the
/// dividend, and what is left over is smaller in magnitude than the divisor
/// and has the dividend's sign.
pub proof fn lemma_truncating_div_rounds_toward_zero(n: int, d: int)
    requires
        d != 0,
    ensures
        n >= 0 ==> 0 <= n - truncating_div(n, d) * d,
        n <= 0 ==> n - truncating_div(n, d) * d <= 0,
        d > 0 ==> -d < n - truncating_div(n, d) * d < d,
        d < 0 ==> d < n - truncating_div(n, d) * d < -d,
{
    let m = if n >= 0 { n } else { -n };
    let e = if d > 0 { d } else { -d };
    lemma_fundamental_div_mod(m, e);
    lemma_mod_bound(m, e);
    let q = m / e;
    assert(m - e * q == m % e);
    assert((-q) * d == -(q * d) && q * (-d) == -(q * d) && e * q == q * e) by (nonlinear_arith);
}

/// The quotient rounded toward zero is the only one that leaves a remainder
/// smaller in magnitude than the divisor and of the dividend's sign.
pub proof fn lemma_truncating_div_unique(n: int, d: int, q: int)
    requires
        d != 0,
        n >= 0 ==> 0 <= n - q * d,
        n <= 0 ==> n - q * d <= 0,
        d > 0 ==> -d < n - q * d < d,
        d < 0 ==> d < n - q * d < -d,
    ensures
        q == truncating_div(n, d),
{
    let t = truncating_div(n, d);
    lemma_truncating_div_rounds_toward_zero(n, d);
    assert(q == t) by (nonlinear_arith)
        requires
            d != 0,
            n >= 0 ==> 0 <= n - q * d && 0 <= n - t * d,
            n <= 0 ==> n - q * d <= 0 && n - t * d <= 0,
            d > 0 ==> -d < n - q * d < d && -d < n - t * d < d,
            d < 0 ==> d < n - q * d < -d && d < n - t * d < -d,
    ;
}

} // verus!
