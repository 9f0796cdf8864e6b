//! Monte Carlo hit-probability estimation: the discrete core.
//!
//! The library holds the decision and aggregation logic of a regime-switching
//! Monte Carlo price simulator: target validation and classification, hit
//! counting, batch partitioning with cumulative tallies, the regime switch,
//! and progress-report thresholding. Terminal prices enter the library as
//! order-preserving `u64` keys supplied by the host (the IEEE bit pattern of a
//! nonnegative price preserves its order), so every comparison the library
//! makes mirrors the comparison on the prices themselves. The floating-point
//! path integrators that produce those prices, and the floating-point
//! rendering of the tallies into probabilities and confidence intervals,
//! live with the host.

pub mod engine;
pub mod progress;
pub mod regime;
pub mod target;

pub use engine::BatchTally;
pub use engine::RunTally;
pub use engine::count_hits;
pub use engine::evaluate_batched;
pub use engine::evaluate_run;
pub use progress::ProgressReporter;
pub use regime::Regime;
pub use regime::update_regime;
pub use target::ResolvedTarget;
pub use target::SimError;
pub use target::Target;
pub use target::classify_hit;
pub use target::validate_target;
