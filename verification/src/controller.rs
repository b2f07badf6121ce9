use vstd::prelude::*;

use crate::progress::{progress_percent, spec_progress_percent};

verus! {

/// Concurrency target a multipart upload starts with.
pub const INITIAL_CONCURRENCY: usize = 4;

/// Upper bound on the number of concurrent part uploads.
pub const MAX_CONCURRENCY: usize = 32;

/// Lowest target a downward probe goes to.
pub const MIN_PROBE_CONCURRENCY: usize = 2;

/// Percentage of the file after which the controller stops probing and keeps
/// the best target found.
pub const SETTLE_PERCENT: u64 = 80;

/// What a controller tick does before any throughput is measured.
#[derive(Debug, Clone, Copy, PartialEq, Eq, Structural)]
pub enum TickStart {
    /// A cooldown window passes: nothing is measured or changed.
    CoolingDown,
    /// The upload is far enough along: the target is set to the best one
    /// found, which the caller publishes; nothing is measured.
    Settled { target: usize },
    /// The caller measures the throughput of the window that just ended.
    Measure,
}

/// How the smoothed throughput of the last window compares with the
/// baseline, as the caller measured it.
#[derive(Debug, Clone, Copy, PartialEq, Eq, Structural)]
pub enum Trend {
    /// No baseline has been taken yet.
    NoBaseline,
    /// Throughput rose by at least five percent over the baseline.
    Rise,
    /// Throughput fell by at least twenty percent; `below_best_floor` tells
    /// whether it is also below ninety percent of the best throughput seen.
    Fall { below_best_floor: bool },
    /// Any other change, including a baseline of zero.
    Steady,
}

/// Which throughput becomes the new baseline after an adjustment.
#[derive(Debug, Clone, Copy, PartialEq, Eq, Structural)]
pub enum NewBaseline {
    /// The smoothed throughput of the last window.
    Smoothed,
    /// The best throughput seen so far.
    Best,
}

/// One probing step from `target`: up by one, capped at `max`, or down by
/// one, not below `MIN_PROBE_CONCURRENCY`.
pub open spec fn probe_step(target: int, up: bool, max: int) -> int {
    if up {
        if target + 1 <= max {
            target + 1
        } else {
            max
        }
    } else {
        let lowered = if target >= 1 {
            target - 1
        } else {
            0
        };
        if lowered >= MIN_PROBE_CONCURRENCY {
            lowered
        } else {
            MIN_PROBE_CONCURRENCY as int
        }
    }
}

/// Hill-climbing tuner for the number of concurrent part uploads.
///
/// Every tick it either waits out a cooldown, settles on the best target near
/// the end of the upload, or takes a throughput measurement, remembers the
/// target under which throughput was best, and probes one step up or down.
pub struct ConcurrencyController {
    current_target: usize,
    best_target: usize,
    prev_target: usize,
    stable_windows: usize,
    cooldown: usize,
    probe_up: bool,
    max_concurrency: usize,
}

impl ConcurrencyController {
    /// The concurrency the scheduler should aim for.
    pub closed spec fn target(&self) -> nat {
        self.current_target as nat
    }

    /// The target under which the best throughput was seen.
    pub closed spec fn best(&self) -> nat {
        self.best_target as nat
    }

    /// The target of the previous measured window.
    pub closed spec fn previous(&self) -> nat {
        self.prev_target as nat
    }

    /// Consecutive measured windows with an unchanged target.
    pub closed spec fn stable(&self) -> nat {
        self.stable_windows as nat
    }

    /// Ticks left to wait before the next measurement.
    pub closed spec fn cooldown(&self) -> nat {
        self.cooldown as nat
    }

    /// Whether the next probe goes up.
    pub closed spec fn probing_up(&self) -> bool {
        self.probe_up
    }

    /// The upper bound on the target.
    pub closed spec fn max(&self) -> nat {
        self.max_concurrency as nat
    }

    /// The controller's invariant: every target it holds lies between
    /// `MIN_PROBE_CONCURRENCY` and the maximum, and a cooldown lasts at most
    /// one tick.
    pub closed spec fn wf(&self) -> bool {
        &&& MIN_PROBE_CONCURRENCY <= self.current_target <= self.max_concurrency
        &&& MIN_PROBE_CONCURRENCY <= self.best_target <= self.max_concurrency
        &&& MIN_PROBE_CONCURRENCY <= self.prev_target <= self.max_concurrency
        &&& self.cooldown <= 1
    }

    /// Every target the controller holds, and so every target it hands out,
    /// lies between `MIN_PROBE_CONCURRENCY` and its maximum; a cooldown lasts
    /// at most one tick. Every method keeps this, so it holds over a whole
    /// run from `new` on.
    pub proof fn lemma_targets_within_bounds(&self)
        requires
            self.wf(),
        ensures
            MIN_PROBE_CONCURRENCY <= self.target() <= self.max(),
            MIN_PROBE_CONCURRENCY <= self.best() <= self.max(),
            MIN_PROBE_CONCURRENCY <= self.previous() <= self.max(),
            self.cooldown() <= 1,
    {
    }

    /// A controller starting at `initial_target`, probing upward first, with
    /// no cooldown and no history.
    pub fn new(initial_target: usize, max_concurrency: usize) -> (c: Self)
        requires
            MIN_PROBE_CONCURRENCY <= initial_target <= max_concurrency,
        ensures
            c.wf(),
            MIN_PROBE_CONCURRENCY <= c.target() <= c.max(),
            MIN_PROBE_CONCURRENCY <= c.best() <= c.max(),
            c.target() == initial_target,
            c.best() == initial_target,
            c.previous() == initial_target,
            c.stable() == 0,
            c.cooldown() == 0,
            c.probing_up(),
            c.max() == max_concurrency,
    {
        ConcurrencyController {
            current_target: initial_target,
            best_target: initial_target,
            prev_target: initial_target,
            stable_windows: 0,
            cooldown: 0,
            probe_up: true,
            max_concurrency,
        }
    }

    /// The concurrency the scheduler should aim for.
    pub fn current_target(&self) -> (t: usize)
        ensures
            t == self.target(),
    {
        self.current_target
    }

    /// The target under which the best throughput was seen.
    pub fn best_target(&self) -> (t: usize)
        ensures
            t == self.best(),
    {
        self.best_target
    }

    /// Consecutive measured windows with an unchanged target.
    pub fn stable_windows(&self) -> (n: usize)
        ensures
            n == self.stable(),
    {
        self.stable_windows
    }

    /// Starts a tick once `uploaded` of `file_size` bytes are uploaded: a
    /// pending cooldown is counted down; otherwise, from `SETTLE_PERCENT` of
    /// the file on, the target is set to the best one; otherwise the caller is
    /// asked to measure.
    pub fn begin_tick(&mut self, uploaded: u64, file_size: u64) -> (start: TickStart)
        requires
            old(self).wf(),
            file_size > 0,
            uploaded * 100 <= u64::MAX,
        ensures
            final(self).wf(),
            MIN_PROBE_CONCURRENCY <= final(self).target() <= final(self).max(),
            MIN_PROBE_CONCURRENCY <= final(self).best() <= final(self).max(),
            final(self).max() == old(self).max(),
            final(self).best() == old(self).best(),
            final(self).previous() == old(self).previous(),
            final(self).stable() == old(self).stable(),
            final(self).probing_up() == old(self).probing_up(),
            old(self).cooldown() > 0 ==> {
                &&& start == TickStart::CoolingDown
                &&& final(self).cooldown() == old(self).cooldown() - 1
                &&& final(self).target() == old(self).target()
            },
            old(self).cooldown() == 0 && spec_progress_percent(uploaded as nat, file_size as nat)
                >= SETTLE_PERCENT ==> {
                &&& start == TickStart::Settled { target: old(self).best() as usize }
                &&& final(self).target() == old(self).best()
                &&& final(self).cooldown() == 0
            },
            old(self).cooldown() == 0 && spec_progress_percent(uploaded as nat, file_size as nat)
                < SETTLE_PERCENT ==> {
                &&& start == TickStart::Measure
                &&& final(self).target() == old(self).target()
                &&& final(self).cooldown() == 0
            },
    {
        if self.cooldown > 0 {
            self.cooldown = self.cooldown - 1;
            return TickStart::CoolingDown;
        }
        if progress_percent(uploaded, file_size) >= SETTLE_PERCENT {
            self.current_target = self.best_target;
            return TickStart::Settled { target: self.current_target };
        }
        TickStart::Measure
    }

    /// Records a measured window during which `active_uploads` uploads were
    /// running; `beats_best` tells whether its smoothed throughput exceeds
    /// the best seen by more than three percent. The target becomes the best
    /// one when it has been unchanged for two windows before this one and
    /// enough uploads were running; the result says whether that happened,
    /// in which case the caller takes this throughput as the best.
    pub fn observe_window(&mut self, active_uploads: usize, beats_best: bool) -> (new_best: bool)
        requires
            old(self).wf(),
            old(self).stable() < usize::MAX,
        ensures
            final(self).wf(),
            MIN_PROBE_CONCURRENCY <= final(self).target() <= final(self).max(),
            MIN_PROBE_CONCURRENCY <= final(self).best() <= final(self).max(),
            final(self).max() == old(self).max(),
            final(self).target() == old(self).target(),
            final(self).cooldown() == old(self).cooldown(),
            final(self).probing_up() == old(self).probing_up(),
            final(self).previous() == old(self).target(),
            final(self).stable() == (if old(self).target() == old(self).previous() {
                old(self).stable() + 1
            } else {
                0
            }),
            new_best == (active_uploads + 1 >= old(self).target() && final(self).stable() >= 2
                && beats_best),
            final(self).best() == (if new_best {
                old(self).target()
            } else {
                old(self).best()
            }),
    {
        if self.current_target == self.prev_target {
            self.stable_windows = self.stable_windows + 1;
        } else {
            self.stable_windows = 0;
            self.prev_target = self.current_target;
        }
        let new_best = active_uploads >= self.current_target.saturating_sub(1)
            && self.current_target == self.prev_target && self.stable_windows >= 2 && beats_best;
        if new_best {
            self.best_target = self.current_target;
        }
        new_best
    }

    /// One probing step from the current target in the given direction.
    fn step(&self, up: bool) -> (t: usize)
        requires
            self.wf(),
        ensures
            t == probe_step(self.current_target as int, up, self.max_concurrency as int),
            MIN_PROBE_CONCURRENCY <= t <= self.max_concurrency,
    {
        if up {
            if self.current_target < self.max_concurrency {
                self.current_target + 1
            } else {
                self.max_concurrency
            }
        } else {
            let lowered = self.current_target.saturating_sub(1);
            if lowered >= MIN_PROBE_CONCURRENCY {
                lowered
            } else {
                MIN_PROBE_CONCURRENCY
            }
        }
    }

    /// Adjusts the target to the measured `trend` and says which throughput
    /// becomes the new baseline. The first measurement probes upward; a rise
    /// keeps probing in the same direction; a fall below the best floor
    /// returns to the best target and probes upward next; any other fall
    /// turns the probe around; a steady window changes nothing. Every change
    /// of target starts a one-tick cooldown.
    pub fn adjust(&mut self, trend: Trend) -> (baseline: NewBaseline)
        requires
            old(self).wf(),
        ensures
            final(self).wf(),
            MIN_PROBE_CONCURRENCY <= final(self).target() <= final(self).max(),
            MIN_PROBE_CONCURRENCY <= final(self).best() <= final(self).max(),
            final(self).max() == old(self).max(),
            final(self).best() == old(self).best(),
            final(self).previous() == old(self).previous(),
            final(self).stable() == old(self).stable(),
            match trend {
                Trend::NoBaseline => {
                    &&& final(self).target() == probe_step(
                        old(self).target() as int,
                        true,
                        old(self).max() as int,
                    )
                    &&& final(self).cooldown() == 1
                    &&& final(self).probing_up() == old(self).probing_up()
                    &&& baseline == NewBaseline::Smoothed
                },
                Trend::Rise => {
                    &&& final(self).target() == probe_step(
                        old(self).target() as int,
                        old(self).probing_up(),
                        old(self).max() as int,
                    )
                    &&& final(self).cooldown() == 1
                    &&& final(self).probing_up() == old(self).probing_up()
                    &&& baseline == NewBaseline::Smoothed
                },
                Trend::Fall { below_best_floor: true } => {
                    &&& final(self).target() == old(self).best()
                    &&& final(self).cooldown() == 1
                    &&& final(self).probing_up()
                    &&& baseline == NewBaseline::Best
                },
                Trend::Fall { below_best_floor: false } => {
                    &&& final(self).target() == probe_step(
                        old(self).target() as int,
                        !old(self).probing_up(),
                        old(self).max() as int,
                    )
                    &&& final(self).cooldown() == 1
                    &&& final(self).probing_up() == !old(self).probing_up()
                    &&& baseline == NewBaseline::Smoothed
                },
                Trend::Steady => {
                    &&& final(self).target() == old(self).target()
                    &&& final(self).cooldown() == old(self).cooldown()
                    &&& final(self).probing_up() == old(self).probing_up()
                    &&& baseline == NewBaseline::Smoothed
                },
            },
    {
        match trend {
            Trend::NoBaseline => {
                self.current_target = self.step(true);
                self.cooldown = 1;
                NewBaseline::Smoothed
            },
            Trend::Rise => {
                self.current_target = self.step(self.probe_up);
                self.cooldown = 1;
                NewBaseline::Smoothed
            },
            Trend::Fall { below_best_floor } => {
                if below_best_floor {
                    self.current_target = self.best_target;
                    self.cooldown = 1;
                    self.probe_up = true;
                    NewBaseline::Best
                } else {
                    self.probe_up = !self.probe_up;
                    self.current_target = self.step(self.probe_up);
                    self.cooldown = 1;
                    NewBaseline::Smoothed
                }
            },
            Trend::Steady => NewBaseline::Smoothed,
        }
    }
}

/// A probing step from a target within bounds stays within
/// `MIN_PROBE_CONCURRENCY` and the maximum and moves the target by at most
/// one; so every adjustment other than a return to the best target moves it
/// by at most one.
pub proof fn lemma_probe_step_moves_at_most_one(target: int, up: bool, max: int)
    requires
        MIN_PROBE_CONCURRENCY <= target <= max,
    ensures
        MIN_PROBE_CONCURRENCY <= probe_step(target, up, max) <= max,
        target - 1 <= probe_step(target, up, max) <= target + 1,
        up ==> probe_step(target, up, max) >= target,
        !up ==> probe_step(target, up, max) <= target,
{
}

/// A probe moves the target by exactly one where it can: up by one below the
/// maximum, down by one above `MIN_PROBE_CONCURRENCY`; at the maximum an
/// upward probe stays there, and at the minimum a downward probe stays.
pub proof fn lemma_probe_moves_by_one(target: int, max: int)
    requires
        2 <= target <= max,
    ensures
        target < max ==> probe_step(target, true, max) == target + 1,
        target == max ==> probe_step(target, true, max) == max,
        target > 2 ==> probe_step(target, false, max) == target - 1,
        target == 2 ==> probe_step(target, false, max) == 2,
{
}

} // verus!
