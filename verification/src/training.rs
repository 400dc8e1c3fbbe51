//! The schedule of a PPO training run.
//!
//! A run performs up to `total_updates` updates (each a rollout followed by
//! a policy update) and stops early when the user asks. At the end it saves
//! a checkpoint tagged with the index of the last completed update, and saves
//! nothing when no update completed.
use vstd::prelude::*;

verus! {

/// What the training driver does next.
#[derive(Clone, Copy, Debug, PartialEq, Eq, Structural)]
pub enum TrainingStep {
    /// Run update `index` (rollout and policy update), then report it completed.
    RunUpdate(usize),
    /// Stop; save a checkpoint tagged with this update index, if any.
    Finish(Option<usize>),
}

/// Progress of a training run.
pub struct TrainingRun {
    pub total_updates: usize,
    /// Index of the next update to run (= number of completed updates).
    pub next_update: usize,
    pub last_update_index: usize,
    pub completed_any_update: bool,
}

impl TrainingRun {
    /// Counters agree: updates complete in order, and the last completed one is remembered.
    pub open spec fn well_formed(&self) -> bool {
        &&& self.next_update <= self.total_updates
        &&& self.completed_any_update <==> self.next_update > 0
        &&& self.completed_any_update ==> self.last_update_index == self.next_update - 1
    }

    /// The step a well-formed run takes, given whether a stop was requested.
    pub open spec fn spec_next_step(&self, stop_requested: bool) -> TrainingStep {
        if stop_requested || self.next_update >= self.total_updates {
            TrainingStep::Finish(if self.completed_any_update { Some(self.last_update_index) } else { None })
        } else {
            TrainingStep::RunUpdate(self.next_update)
        }
    }

    /// A run of `total_updates` updates, none done yet.
    pub fn new(total_updates: usize) -> (run: Self)
        ensures
            run.well_formed(),
            run.total_updates == total_updates,
            run.next_update == 0,
            !run.completed_any_update,
    {
        TrainingRun { total_updates, next_update: 0, last_update_index: 0, completed_any_update: false }
    }

    /// What to do next: the next update, or finish (when a stop was
    /// requested or every update ran), saving after the last completed update.
    pub fn next_step(&self, stop_requested: bool) -> (step: TrainingStep)
        requires
            self.well_formed(),
        ensures
            step == self.spec_next_step(stop_requested),
    {
        if stop_requested || self.next_update >= self.total_updates {
            TrainingStep::Finish(if self.completed_any_update { Some(self.last_update_index) } else { None })
        } else {
            TrainingStep::RunUpdate(self.next_update)
        }
    }

    /// Records that the update `next_step` asked for has completed.
    pub fn update_completed(&mut self)
        requires
            old(self).well_formed(),
            old(self).next_update < old(self).total_updates,
        ensures
            final(self).well_formed(),
            final(self).total_updates == old(self).total_updates,
            final(self).next_update == old(self).next_update + 1,
            final(self).last_update_index == old(self).next_update,
            final(self).completed_any_update,
    {
        self.last_update_index = self.next_update;
        self.next_update = self.next_update + 1;
        self.completed_any_update = true;
    }
}

/// A run never goes past its update budget, runs updates in order, and at
/// the end saves exactly when some update completed, tagged with the last
/// completed update's index.
pub proof fn lemma_training_schedule(run: TrainingRun, stop_requested: bool)
    requires
        run.well_formed(),
    ensures
        run.spec_next_step(stop_requested) matches TrainingStep::RunUpdate(index) ==> index < run.total_updates
            && index == run.next_update && !stop_requested,
        run.spec_next_step(stop_requested) matches TrainingStep::Finish(saved) ==> (saved is Some <==> run.next_update
            > 0) && (saved matches Some(index) ==> index + 1 == run.next_update),
        !stop_requested && run.next_update == run.total_updates ==> run.spec_next_step(stop_requested) is Finish,
{
}

/// Progress shown after update `update_index` of `total_updates`: the number
/// of completed updates (saturating) over the total (at least one).
pub fn dashboard_progress(update_index: usize, total_updates: usize) -> (progress: (usize, usize))
    ensures
        progress.0 == if update_index == usize::MAX { usize::MAX as int } else { update_index + 1 },
        progress.1 == if total_updates < 1 { 1 } else { total_updates as int },
{
    let completed = update_index.saturating_add(1);
    let total = if total_updates < 1 { 1 } else { total_updates };
    (completed, total)
}

} // verus!
