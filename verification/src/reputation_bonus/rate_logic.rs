//! The discount rate that a reputation earns.

use vstd::prelude::*;

verus! {

#[derive(Clone, Copy, Debug, PartialEq, Eq, Structural)]
pub enum RateError {
    ArithmeticUnderflow,
    ArithmeticOverflow,
}

/// The base rate; where the score reaches the threshold, less the bonus, but
/// not below the floor.
pub open spec fn effective_rate(base: u32, score: u32, threshold: u32, bonus: u32, floor: u32)
    -> u32 {
    if score < threshold {
        base
    } else if base >= floor + bonus {
        (base - bonus) as u32
    } else {
        floor
    }
}

/// Applies the reputation bonus to a base rate. Every input has a rate.
pub fn calculate_effective_rate(
    base_rate_bps: u32,
    rep_score: u32,
    high_rep_threshold: u32,
    bonus_bps: u32,
    min_discount_rate_bps: u32,
) -> (r: Result<u32, RateError>)
    ensures
        r == Ok::<u32, RateError>(
            effective_rate(
                base_rate_bps,
                rep_score,
                high_rep_threshold,
                bonus_bps,
                min_discount_rate_bps,
            ),
        ),
{
    if rep_score < high_rep_threshold {
        return Ok(base_rate_bps);
    }
    Ok(base_rate_bps.saturating_sub(bonus_bps).max(min_discount_rate_bps))
}

/// The bonus is never worth more than its size, and it never raises a rate that
/// was at or above the floor.
pub proof fn law_bonus_is_bounded(base: u32, score: u32, threshold: u32, bonus: u32, floor: u32)
    requires
        base >= floor,
    ensures
        effective_rate(base, score, threshold, bonus, floor) <= base,
        effective_rate(base, score, threshold, bonus, floor) >= floor,
        base - effective_rate(base, score, threshold, bonus, floor) <= bonus,
{
}

/// More reputation never costs more, as long as the base rate respects the floor.
pub proof fn law_rate_falls_with_score(
    base: u32,
    low: u32,
    high: u32,
    threshold: u32,
    bonus: u32,
    floor: u32,
)
    requires
        low <= high,
        base >= floor,
    ensures
        effective_rate(base, high, threshold, bonus, floor) <= effective_rate(
            base,
            low,
            threshold,
            bonus,
            floor,
        ),
{
}

} // verus!
