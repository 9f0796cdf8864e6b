//! Progress-report thresholding for a long simulation run.

use vstd::prelude::*;

verus! {

/// The percentage, rounded down to a whole point, that `current` is of
/// `total`.
pub open spec fn spec_percent(current: u32, total: u32) -> u32
    recommends
        total > 0,
{
    ((current as int * 100) / total as int) as u32
}

/// Whether a report is emitted at `current`: progress has advanced by at
/// least one twentieth of the total since the last report, or the run is
/// complete.
pub open spec fn spec_should_report(current: u32, last_reported: u32, total: u32) -> bool {
    current as int - last_reported as int >= total as int / 20 || current == total
}

/// Decides when accumulated progress is worth reporting to a caller that
/// polls path by path: only once progress has advanced past a 5%-of-total
/// threshold since the last report, or when the run is complete.
pub struct ProgressReporter {
    /// The progress value at which the run is complete.
    pub total: u32,
    /// The most recent progress value handed to `update`.
    pub current: u32,
    /// The progress value at the last emitted report.
    pub last_reported: u32,
}

impl ProgressReporter {
    /// A reporter for a run of `total` units, with no progress made and
    /// nothing reported yet.
    pub fn new(total: u32) -> (r: ProgressReporter)
        ensures
            r.total == total,
            r.current == 0,
            r.last_reported == 0,
    {
        ProgressReporter { total, current: 0, last_reported: 0 }
    }

    /// Record that progress has reached `current`. Emits the whole-point
    /// percentage complete exactly when progress has advanced by at least
    /// `total / 20` units since the last report or the run is complete, and
    /// then remembers `current` as the last report; otherwise emits nothing
    /// and leaves the report mark alone.
    pub fn update(&mut self, current: u32) -> (r: Option<u32>)
        requires
            old(self).total > 0,
            old(self).last_reported <= current <= old(self).total,
        ensures
            final(self).total == old(self).total,
            final(self).current == current,
            if spec_should_report(current, old(self).last_reported, old(self).total) {
                &&& r == Some(spec_percent(current, old(self).total))
                &&& final(self).last_reported == current
            } else {
                &&& r == None::<u32>
                &&& final(self).last_reported == old(self).last_reported
            },
    {
        self.current = current;
        let threshold: u32 = self.total / 20;
        if current - self.last_reported >= threshold || current == self.total {
            self.last_reported = current;
            Some(((current as u64 * 100) / (self.total as u64)) as u32)
        } else {
            None
        }
    }
}

} // verus!
