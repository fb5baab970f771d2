//! Amounts, rates and shares.

use vstd::prelude::*;

verus! {

/// Whether `n` can be held as an amount.
pub open spec fn in_i128(n: int) -> bool {
    i128::MIN <= n <= i128::MAX
}

/// `n / d` rounded towards zero, for a positive `d`.
pub open spec fn toward_zero(n: int, d: int) -> int {
    if n >= 0 {
        n / d
    } else {
        -((-n) / d)
    }
}

/// `a * b`, or zero where that is no amount.
pub open spec fn product(a: int, b: int) -> int {
    if in_i128(a * b) {
        a * b
    } else {
        0
    }
}

/// `rate` basis points of `amount`.
pub open spec fn scaled(amount: int, rate: int) -> int {
    toward_zero(product(amount, rate), 10_000)
}

/// `amount` less `rate` basis points of it.
pub open spec fn net_of(amount: int, rate: int) -> int {
    amount - scaled(amount, rate)
}

/// What `part` of `whole` gets out of `total`.
pub open spec fn share_of(total: int, part: int, whole: int) -> int {
    toward_zero(product(total, part), whole)
}

pub(crate) proof fn lemma_net_fits(amount: int, rate: int)
    requires
        in_i128(amount),
        0 <= rate,
    ensures
        in_i128(scaled(amount, rate)),
        in_i128(net_of(amount, rate)),
{
    assert(amount >= 0 ==> amount * rate >= 0) by (nonlinear_arith)
        requires
            0 <= rate,
    ;
    assert(amount <= 0 ==> amount * rate <= 0) by (nonlinear_arith)
        requires
            0 <= rate,
    ;
}

/// Basis points of an amount.
pub(crate) fn scale(amount: i128, rate: i128) -> (r: i128)
    ensures
        r == scaled(amount as int, rate as int),
{
    amount.checked_mul(rate).unwrap_or(0) / 10_000
}

/// An amount less its discount.
pub(crate) fn discounted(amount: i128, rate: i128) -> (r: i128)
    requires
        0 <= rate,
    ensures
        r == net_of(amount as int, rate as int),
{
    proof {
        lemma_net_fits(amount as int, rate as int);
    }
    amount - scale(amount, rate)
}

/// The part of `total` that falls to `part` of `whole`.
pub(crate) fn share(total: i128, part: i128, whole: i128) -> (r: i128)
    requires
        whole > 0,
    ensures
        r == share_of(total as int, part as int, whole as int),
{
    total.checked_mul(part).unwrap_or(0) / whole
}

/// A discount is never negative and never more than the amount, for rates up to
/// the whole.
pub proof fn law_discount_is_within_the_amount(amount: int, rate: int)
    requires
        0 <= amount <= i128::MAX,
        0 <= rate <= 10_000,
    ensures
        0 <= scaled(amount, rate) <= amount,
        0 <= net_of(amount, rate) <= amount,
{
    assert(0 <= amount * rate <= amount * 10_000) by (nonlinear_arith)
        requires
            0 <= amount,
            0 <= rate <= 10_000,
    ;
}

} // verus!
