//! Fixed-step simulation clock and the schedule of a headless run.
use vstd::prelude::*;

verus! {

/// Number of completed fixed simulation steps.
#[derive(Clone, Copy, Debug, PartialEq, Eq, Structural)]
pub struct SimTick(pub u64);

impl Default for SimTick {
    fn default() -> (tick: Self)
        ensures
            tick.0 == 0,
    {
        SimTick(0)
    }
}

impl SimTick {
    /// Counts one more completed step (saturating at the largest count).
    pub fn bump(&mut self)
        ensures
            final(self).0 == if old(self).0 == u64::MAX { u64::MAX } else { (old(self).0 + 1) as u64 },
    {
        self.0 = self.0.saturating_add(1);
    }
}

/// Whether a headless run limited to `max_ticks` steps (if limited) is over at `tick`.
pub fn reached_max_ticks(tick: SimTick, max_ticks: Option<u64>) -> (over: bool)
    ensures
        over == (max_ticks matches Some(max) && tick.0 >= max),
{
    match max_ticks {
        Some(max) => tick.0 >= max,
        None => false,
    }
}

/// Fixed ticks between two progress reports of a headless run.
pub const PROGRESS_INTERVAL: u64 = 60;

/// Ticks a headless run lasts when no limit is given.
pub const DEFAULT_HEADLESS_TICKS: u64 = 600;

/// Environments a headless run spawns when no count is given.
pub const DEFAULT_HEADLESS_ENVS: u32 = 16;

/// Whether a headless run reports its progress at `tick`: when the counter
/// has just advanced to a nonzero multiple of the report interval.
pub fn progress_due(tick: SimTick, changed: bool) -> (due: bool)
    ensures
        due == (tick.0 != 0 && changed && tick.0 % PROGRESS_INTERVAL == 0),
{
    if tick.0 == 0 || !changed {
        return false;
    }
    tick.0 % PROGRESS_INTERVAL == 0
}

/// Tick limit of a headless run: the one given, or the default.
pub fn headless_tick_limit(requested: Option<u64>) -> (limit: Option<u64>)
    ensures
        limit == Some(
            match requested {
                Some(ticks) => ticks,
                None => DEFAULT_HEADLESS_TICKS,
            },
        ),
{
    match requested {
        Some(ticks) => Some(ticks),
        None => Some(DEFAULT_HEADLESS_TICKS),
    }
}

/// Environment count of a headless run: the one given, or the default.
pub fn headless_env_count(requested: Option<u32>) -> (count: u32)
    ensures
        count == match requested {
            Some(n) => n,
            None => DEFAULT_HEADLESS_ENVS,
        },
{
    match requested {
        Some(n) => n,
        None => DEFAULT_HEADLESS_ENVS,
    }
}

} // verus!
