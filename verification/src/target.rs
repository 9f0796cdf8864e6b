//! Targets: the hit condition on the terminal price, its validation and
//! classification.
//!
//! A terminal price enters the library as an order-preserving `u64` key: the
//! host maps each nonnegative price to a key so that the numeric order of two
//! prices and the order of their keys agree (the IEEE bit pattern of a
//! nonnegative double does this). Strikes and range bounds arrive through the
//! same map, so `key > strike_key` holds exactly when `price > strike`.

use vstd::prelude::*;

verus! {

/// A target as the caller hands it in: a discriminator string and the bounds
/// that may accompany it, as order-preserving price keys.
#[allow(non_snake_case)]
pub struct Target {
    /// The discriminator: `"above"` or `"range"`; anything else is rejected.
    pub kind: String,
    /// Strike key, required when `kind` is `"above"`.
    pub K: Option<u64>,
    /// Lower range key, required when `kind` is `"range"`.
    pub L: Option<u64>,
    /// Upper range key, required when `kind` is `"range"`.
    pub U: Option<u64>,
}

/// A target whose required bounds have been checked for presence.
#[derive(Clone, Copy, Debug, PartialEq, Eq, Structural)]
pub enum ResolvedTarget {
    /// Hit when the terminal price key exceeds `k`.
    Above { k: u64 },
    /// Hit when the terminal price key lies in `[l, u]`, both ends included.
    Range { l: u64, u: u64 },
}

/// The errors a simulation call can fail with before any path is simulated.
#[derive(Clone, Copy, Debug, PartialEq, Eq, Structural)]
pub enum SimError {
    /// Validation failure: `kind` is `"above"` but no strike was given.
    MissingStrike,
    /// Validation failure: `kind` is `"range"` but a range bound is absent.
    MissingRangeBounds,
    /// The discriminator is neither `"above"` nor `"range"`.
    InvalidTargetKind,
}

impl SimError {
    /// Whether this error is a validation error: a recognized kind whose
    /// required bounds are absent.
    pub open spec fn spec_is_validation(self) -> bool {
        match self {
            SimError::MissingStrike => true,
            SimError::MissingRangeBounds => true,
            SimError::InvalidTargetKind => false,
        }
    }

    /// Whether this error is a validation error.
    pub fn is_validation(&self) -> (r: bool)
        ensures
            r == self.spec_is_validation(),
    {
        match self {
            SimError::MissingStrike => true,
            SimError::MissingRangeBounds => true,
            SimError::InvalidTargetKind => false,
        }
    }

    /// The message for this error.
    pub open spec fn spec_message(self) -> Seq<char> {
        match self {
            SimError::MissingStrike => "Strike price K required for 'above' target"@,
            SimError::MissingRangeBounds => "Range bounds L and U required for 'range' target"@,
            SimError::InvalidTargetKind => "Invalid target kind"@,
        }
    }

    /// The message for this error.
    pub fn message(&self) -> (r: String)
        ensures
            r@ == self.spec_message(),
    {
        match self {
            SimError::MissingStrike => "Strike price K required for 'above' target".to_owned(),
            SimError::MissingRangeBounds => "Range bounds L and U required for 'range' target".to_owned(),
            SimError::InvalidTargetKind => "Invalid target kind".to_owned(),
        }
    }
}

/// What validating a raw target yields: the resolved target when the kind is
/// recognized and its required bounds are present, otherwise the exact error.
pub open spec fn spec_validate(t: Target) -> Result<ResolvedTarget, SimError> {
    if t.kind@ == "above"@ {
        match t.K {
            Some(k) => Ok(ResolvedTarget::Above { k }),
            None => Err(SimError::MissingStrike),
        }
    } else if t.kind@ == "range"@ {
        match (t.L, t.U) {
            (Some(l), Some(u)) => Ok(ResolvedTarget::Range { l, u }),
            _ => Err(SimError::MissingRangeBounds),
        }
    } else {
        Err(SimError::InvalidTargetKind)
    }
}

/// Check a raw target: an `"above"` target needs its strike, a `"range"`
/// target needs both bounds, and any other kind is rejected outright.
pub fn validate_target(t: &Target) -> (r: Result<ResolvedTarget, SimError>)
    ensures
        r == spec_validate(*t),
{
    if t.kind == "above".to_owned() {
        match t.K {
            Some(k) => Ok(ResolvedTarget::Above { k }),
            None => Err(SimError::MissingStrike),
        }
    } else if t.kind == "range".to_owned() {
        match (t.L, t.U) {
            (Some(l), Some(u)) => Ok(ResolvedTarget::Range { l, u }),
            _ => Err(SimError::MissingRangeBounds),
        }
    } else {
        Err(SimError::InvalidTargetKind)
    }
}

/// Whether a terminal price key satisfies the target: above its strike, or
/// inside its range with both ends included.
pub open spec fn spec_hit(price: u64, t: ResolvedTarget) -> bool {
    match t {
        ResolvedTarget::Above { k } => price > k,
        ResolvedTarget::Range { l, u } => l <= price && price <= u,
    }
}

/// Classify one terminal price key against a resolved target.
pub fn classify_hit(price: u64, t: &ResolvedTarget) -> (hit: bool)
    ensures
        hit == spec_hit(price, *t),
{
    match t {
        ResolvedTarget::Above { k } => price > *k,
        ResolvedTarget::Range { l, u } => *l <= price && price <= *u,
    }
}

} // verus!
