//! Exact arithmetic on amounts of money, held as whole minor units.

use vstd::prelude::*;

verus! {

/// The integer nearest to `numerator / denominator`; an exact half goes up.
pub open spec fn round_half_up(numerator: nat, denominator: nat) -> nat
    recommends
        denominator > 0,
{
    (numerator + denominator / 2) / denominator
}

/// What is left of `amount` once `percentage` percent has been taken off,
/// rounded to a whole minor unit.
pub open spec fn percent_off(amount: nat, percentage: nat) -> nat
    recommends
        percentage <= 100,
{
    round_half_up((amount * (100 - percentage)) as nat, 100)
}

/// Taking a percentage off never raises an amount; taking nothing off keeps
/// it, and taking everything off leaves nothing.
pub proof fn lemma_percent_off_bounds(amount: nat, percentage: nat)
    requires
        percentage <= 100,
    ensures
        percent_off(amount, percentage) <= amount,
        percent_off(amount, 0) == amount,
        percent_off(amount, 100) == 0,
{
    let kept = (100 - percentage) as nat;
    let scaled = amount * kept;
    assert(scaled <= amount * 100) by (nonlinear_arith)
        requires
            scaled == amount * kept,
            kept <= 100,
    ;
}

/// Takes `percentage` percent off `amount`, rounding the result once.
pub fn take_percentage_off(amount: u64, percentage: u64) -> (reduced: u64)
    requires
        percentage <= 100,
    ensures
        reduced == percent_off(amount as nat, percentage as nat),
        reduced <= amount,
{
    let kept: u64 = 100 - percentage;
    proof {
        lemma_percent_off_bounds(amount as nat, percentage as nat);
        assert(amount * kept <= amount * 100) by (nonlinear_arith)
            requires
                kept <= 100,
        ;
    }
    let scaled: u128 = (amount as u128) * (kept as u128);
    let rounded: u128 = (scaled + 50) / 100;
    rounded as u64
}

} // verus!
