//! The two-state market regime and its one-step transition.

use vstd::prelude::*;

verus! {

/// One of the two discrete market states. Each regime carries its own drift
/// and volatility dynamics on the host side; the library tracks only which
/// state is active.
#[derive(Clone, Copy, Debug, PartialEq, Eq, Structural)]
pub enum Regime {
    Bull,
    Bear,
}

/// The regime other than `r`.
pub open spec fn spec_other(r: Regime) -> Regime {
    match r {
        Regime::Bull => Regime::Bear,
        Regime::Bear => Regime::Bull,
    }
}

/// Advance the two-state Markov chain by one step.
///
/// The host draws one uniform value `u` and compares it against the one-step
/// transition probability `rate[current -> other] * dt`; `transition` is the
/// outcome of that comparison (`u` below the probability). The chain flips to
/// the other regime exactly when the draw fell below the transition
/// probability, and stays put otherwise.
pub fn update_regime(current: Regime, transition: bool) -> (next: Regime)
    ensures
        next == if transition {
            spec_other(current)
        } else {
            current
        },
{
    if transition {
        match current {
            Regime::Bull => Regime::Bear,
            Regime::Bear => Regime::Bull,
        }
    } else {
        current
    }
}

} // verus!
