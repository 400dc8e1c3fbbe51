//! Shared per-environment step buffers and episode bookkeeping.
//!
//! Creature packs fill observations and rewards; trainers and viewers write
//! actions. The element type `T` is the model's scalar type.
use vstd::prelude::*;
use crate::env::EnvId;

verus! {

/// Identity and dimensions of the creature pack currently in the app.
#[derive(Clone, Copy, Debug)]
pub struct CreatureSpec {
    pub id: &'static str,
    pub observation_dim: usize,
    pub action_dim: usize,
}

/// How many environments to spawn at startup.
#[derive(Clone, Copy, Debug)]
pub struct SpawnEnvBatch {
    pub count: u32,
    pub interpolate: bool,
}

impl Default for SpawnEnvBatch {
    fn default() -> (batch: Self)
        ensures
            batch.count == 8,
            !batch.interpolate,
    {
        SpawnEnvBatch { count: 8, interpolate: false }
    }
}

/// Whether time-limit truncations reset the environment.
///
/// Trainers turn this off so that the final observation stays valid for
/// value bootstrapping; viewers keep the default (`true`) so long-running
/// simulations periodically start a fresh episode.
#[derive(Clone, Copy, Debug)]
pub struct EpisodeResetPolicy {
    pub reset_on_truncate: bool,
}

impl Default for EpisodeResetPolicy {
    fn default() -> (policy: Self)
        ensures
            policy.reset_on_truncate,
    {
        EpisodeResetPolicy { reset_on_truncate: true }
    }
}

/// What one simulation step does to an environment's episode.
#[derive(Clone, Copy, Debug, PartialEq, Eq, Structural)]
pub struct EpisodeTransition {
    /// Step counter after the step.
    pub steps: u32,
    /// The episode ended in a true terminal (e.g. a fall).
    pub terminated: bool,
    /// The episode was cut by the time limit.
    pub truncated: bool,
    /// The episode ended (terminated or truncated).
    pub done: bool,
    /// The environment is put back into a fresh start state.
    pub reset: bool,
}

/// Episode bookkeeping for one step: the counter advances (saturating); a
/// fall terminates the episode and always resets; reaching the horizon
/// truncates it and resets only when the policy says so. An ended episode
/// restarts its counter.
pub open spec fn spec_episode_transition(steps: u32, horizon: u32, fallen: bool, reset_on_truncate: bool) -> EpisodeTransition {
    let counted = if steps == u32::MAX { u32::MAX } else { (steps + 1) as u32 };
    if fallen {
        EpisodeTransition { steps: 0, terminated: true, truncated: false, done: true, reset: true }
    } else if counted >= horizon {
        EpisodeTransition { steps: 0, terminated: false, truncated: true, done: true, reset: reset_on_truncate }
    } else {
        EpisodeTransition { steps: counted, terminated: false, truncated: false, done: false, reset: false }
    }
}

/// Episode bookkeeping for one step of one environment.
pub fn episode_transition(steps: u32, horizon: u32, fallen: bool, reset_on_truncate: bool) -> (transition: EpisodeTransition)
    ensures
        transition == spec_episode_transition(steps, horizon, fallen, reset_on_truncate),
        fallen ==> transition.terminated && !transition.truncated && transition.done && transition.reset,
        !fallen ==> !transition.terminated,
        transition.done == (transition.terminated || transition.truncated),
{
    let counted = steps.saturating_add(1);
    if fallen {
        EpisodeTransition { steps: 0, terminated: true, truncated: false, done: true, reset: true }
    } else if counted >= horizon {
        EpisodeTransition { steps: 0, terminated: false, truncated: true, done: true, reset: reset_on_truncate }
    } else {
        EpisodeTransition { steps: counted, terminated: false, truncated: false, done: false, reset: false }
    }
}

/// An episode is never both terminated and truncated; it is done exactly
/// when it is one of them; only a done episode resets, and a terminated one
/// always does; a done episode restarts its counter; and a counter below the
/// horizon stays below it.
pub proof fn lemma_episode_transition_laws(steps: u32, horizon: u32, fallen: bool, reset_on_truncate: bool)
    ensures
        ({
            let t = spec_episode_transition(steps, horizon, fallen, reset_on_truncate);
            &&& !(t.terminated && t.truncated)
            &&& t.done == (t.terminated || t.truncated)
            &&& t.reset ==> t.done
            &&& t.terminated ==> t.reset
            &&& t.truncated ==> (t.reset == reset_on_truncate)
            &&& t.done ==> t.steps == 0
            &&& steps < horizon ==> t.steps < horizon
        }),
{
}

/// Per-environment observation, action and reward buffers used by trainers and viewers.
#[derive(Clone, Debug)]
pub struct RlBuffers<T> {
    pub observations: Vec<Vec<T>>,
    pub actions: Vec<Vec<T>>,
    pub rewards: Vec<T>,
    pub episode_steps: Vec<u32>,
    /// True terminal (e.g. a fall): advantage estimation must not bootstrap across it.
    pub episode_terminated: Vec<bool>,
    /// Time-limit cut: values bootstrap across it; it is no failure.
    pub episode_truncated: Vec<bool>,
    /// `terminated || truncated`: the episode boundary for bookkeeping and display.
    pub episode_done: Vec<bool>,
    pub episode_horizon: u32,
}

impl<T> Default for RlBuffers<T> {
    fn default() -> (buffers: Self)
        ensures
            buffers.observations@.len() == 0,
            buffers.actions@.len() == 0,
            buffers.rewards@.len() == 0,
            buffers.episode_steps@.len() == 0,
            buffers.episode_terminated@.len() == 0,
            buffers.episode_truncated@.len() == 0,
            buffers.episode_done@.len() == 0,
            buffers.episode_horizon == 0,
    {
        RlBuffers {
            observations: Vec::new(),
            actions: Vec::new(),
            rewards: Vec::new(),
            episode_steps: Vec::new(),
            episode_terminated: Vec::new(),
            episode_truncated: Vec::new(),
            episode_done: Vec::new(),
            episode_horizon: 0,
        }
    }
}

/// `rows` holds `count` rows of `width` copies of `value`.
pub open spec fn is_filled_table<T>(rows: Seq<Vec<T>>, count: nat, width: nat, value: T) -> bool {
    &&& rows.len() == count
    &&& forall|e: int| 0 <= e < count ==> (#[trigger] rows[e])@ == Seq::new(width, |k: int| value)
}

/// `count` rows of `width` copies of `value`.
pub fn filled_table<T: Copy>(count: usize, width: usize, value: T) -> (rows: Vec<Vec<T>>)
    ensures
        is_filled_table(rows@, count as nat, width as nat, value),
{
    let mut rows: Vec<Vec<T>> = Vec::new();
    let mut e: usize = 0;
    while e < count
        invariant
            e <= count,
            is_filled_table(rows@, e as nat, width as nat, value),
        decreases count - e,
    {
        let row = crate::rollout::filled(value, width);
        rows.push(row);
        e = e + 1;
    }
    rows
}

impl<T: Copy> RlBuffers<T> {
    /// Number of environments every per-environment buffer covers.
    pub open spec fn covers(&self, env_count: nat) -> bool {
        &&& self.observations@.len() == env_count
        &&& self.actions@.len() == env_count
        &&& self.rewards@.len() == env_count
        &&& self.episode_steps@.len() == env_count
        &&& self.episode_terminated@.len() == env_count
        &&& self.episode_truncated@.len() == env_count
        &&& self.episode_done@.len() == env_count
    }

    /// Fresh zeroed buffers for `env_count` environments; the horizon is at least one step.
    pub fn resize(&mut self, env_count: usize, observation_dim: usize, action_dim: usize, horizon: u32, zero: T)
        ensures
            final(self).covers(env_count as nat),
            is_filled_table(final(self).observations@, env_count as nat, observation_dim as nat, zero),
            is_filled_table(final(self).actions@, env_count as nat, action_dim as nat, zero),
            final(self).rewards@ == Seq::new(env_count as nat, |e: int| zero),
            final(self).episode_steps@ == Seq::new(env_count as nat, |e: int| 0u32),
            final(self).episode_terminated@ == Seq::new(env_count as nat, |e: int| false),
            final(self).episode_truncated@ == Seq::new(env_count as nat, |e: int| false),
            final(self).episode_done@ == Seq::new(env_count as nat, |e: int| false),
            final(self).episode_horizon == if horizon < 1 { 1 } else { horizon },
    {
        self.observations = filled_table(env_count, observation_dim, zero);
        self.actions = filled_table(env_count, action_dim, zero);
        self.rewards = crate::rollout::filled(zero, env_count);
        self.episode_steps = crate::rollout::filled(0u32, env_count);
        self.episode_terminated = crate::rollout::filled(false, env_count);
        self.episode_truncated = crate::rollout::filled(false, env_count);
        self.episode_done = crate::rollout::filled(false, env_count);
        self.episode_horizon = if horizon < 1 { 1 } else { horizon };
    }

    /// Clears every episode counter and flag, keeping observations, actions and rewards.
    pub fn clear_episode_counters(&mut self)
        ensures
            final(self).observations == old(self).observations,
            final(self).actions == old(self).actions,
            final(self).rewards == old(self).rewards,
            final(self).episode_horizon == old(self).episode_horizon,
            final(self).episode_steps@ == Seq::new(old(self).episode_steps@.len(), |e: int| 0u32),
            final(self).episode_terminated@ == Seq::new(old(self).episode_terminated@.len(), |e: int| false),
            final(self).episode_truncated@ == Seq::new(old(self).episode_truncated@.len(), |e: int| false),
            final(self).episode_done@ == Seq::new(old(self).episode_done@.len(), |e: int| false),
    {
        let steps = self.episode_steps.len();
        self.episode_steps = crate::rollout::filled(0u32, steps);
        let terminated = self.episode_terminated.len();
        self.episode_terminated = crate::rollout::filled(false, terminated);
        let truncated = self.episode_truncated.len();
        self.episode_truncated = crate::rollout::filled(false, truncated);
        let done = self.episode_done.len();
        self.episode_done = crate::rollout::filled(false, done);
    }

    /// Records one simulation step of environment `env_index`: advances its
    /// episode counter, sets its episode flags, and zeroes its actions (when
    /// it has an action row) when the episode ended. Returns whether the
    /// environment must be reset.
    pub fn advance_episode(&mut self, env_index: usize, fallen: bool, policy: &EpisodeResetPolicy, zero: T) -> (reset: bool)
        requires
            env_index < old(self).episode_steps@.len(),
            env_index < old(self).episode_terminated@.len(),
            env_index < old(self).episode_truncated@.len(),
            env_index < old(self).episode_done@.len(),
        ensures
            ({
                let t = spec_episode_transition(
                    old(self).episode_steps@[env_index as int],
                    old(self).episode_horizon,
                    fallen,
                    policy.reset_on_truncate,
                );
                &&& reset == t.reset
                &&& final(self).episode_steps@ == old(self).episode_steps@.update(env_index as int, t.steps)
                &&& final(self).episode_terminated@ == old(self).episode_terminated@.update(env_index as int, t.terminated)
                &&& final(self).episode_truncated@ == old(self).episode_truncated@.update(env_index as int, t.truncated)
                &&& final(self).episode_done@ == old(self).episode_done@.update(env_index as int, t.done)
                &&& final(self).actions@.len() == old(self).actions@.len()
                &&& forall|e: int|
                    0 <= e < old(self).actions@.len() ==> (#[trigger] final(self).actions@[e])@ == if t.done && e
                        == env_index {
                        Seq::new(old(self).actions@[e]@.len(), |k: int| zero)
                    } else {
                        old(self).actions@[e]@
                    }
                &&& final(self).observations == old(self).observations
                &&& final(self).rewards == old(self).rewards
                &&& final(self).episode_horizon == old(self).episode_horizon
            }),
    {
        let t = episode_transition(
            self.episode_steps[env_index],
            self.episode_horizon,
            fallen,
            policy.reset_on_truncate,
        );
        self.episode_steps.set(env_index, t.steps);
        self.episode_terminated.set(env_index, t.terminated);
        self.episode_truncated.set(env_index, t.truncated);
        self.episode_done.set(env_index, t.done);
        if t.done && env_index < self.actions.len() {
            let width = self.actions[env_index].len();
            self.actions.set(env_index, crate::rollout::filled(zero, width));
        }
        t.reset
    }

    /// The action that actuator `action_index` of environment `env_index` reads, if there is one.
    pub fn buffered_action(&self, env_id: EnvId, action_index: usize) -> (action: Option<T>)
        ensures
            action == if env_id.0 < self.actions@.len() && action_index < self.actions@[env_id.0 as int]@.len() {
                Some(self.actions@[env_id.0 as int]@[action_index as int])
            } else {
                None
            },
    {
        let env_index = env_id.0 as usize;
        if env_index < self.actions.len() && action_index < self.actions[env_index].len() {
            Some(self.actions[env_index][action_index])
        } else {
            None
        }
    }
}

/// The rows of `rows`, concatenated.
pub fn flatten_rows<T: Copy>(rows: &Vec<Vec<T>>) -> (flat: Vec<T>)
    ensures
        flat@ == rows@.map_values(|row: Vec<T>| row@).flatten(),
{
    let mut flat: Vec<T> = Vec::new();
    let mut e: usize = 0;
    while e < rows.len()
        invariant
            e <= rows@.len(),
            flat@ == rows@.subrange(0, e as int).map_values(|row: Vec<T>| row@).flatten(),
        decreases rows@.len() - e,
    {
        let ghost before = flat@;
        let mut k: usize = 0;
        while k < rows[e].len()
            invariant
                e < rows@.len(),
                k <= rows@[e as int]@.len(),
                flat@ == before + rows@[e as int]@.subrange(0, k as int),
            decreases rows@[e as int]@.len() - k,
        {
            flat.push(rows[e][k]);
            k = k + 1;
            assert(flat@ =~= before + rows@[e as int]@.subrange(0, k as int));
        }
        proof {
            let done = rows@.subrange(0, e as int).map_values(|row: Vec<T>| row@);
            let prefix = rows@.subrange(0, e + 1).map_values(|row: Vec<T>| row@);
            assert(rows@[e as int]@.subrange(0, rows@[e as int]@.len() as int) =~= rows@[e as int]@);
            done.lemma_flatten_push(rows@[e as int]@);
            assert(done.push(rows@[e as int]@) =~= prefix);
        }
        e = e + 1;
    }
    assert(rows@.subrange(0, rows@.len() as int) =~= rows@);
    flat
}

/// Copies a flat step-major action batch into per-environment rows: row
/// `e` receives `flat[e * width .. (e + 1) * width]` when that slice lies
/// inside `flat`; otherwise it is filled with `fallback`, or left as it is
/// when there is no fallback.
pub fn copy_flat_rows<T: Copy>(rows: &mut Vec<Vec<T>>, flat: &Vec<T>, width: usize, fallback: Option<T>)
    requires
        forall|e: int| 0 <= e < old(rows)@.len() ==> (#[trigger] old(rows)@[e])@.len() == width,
    ensures
        final(rows)@.len() == old(rows)@.len(),
        forall|e: int|
            0 <= e < old(rows)@.len() ==> (#[trigger] final(rows)@[e])@ == if (e + 1) * width <= flat@.len() {
                flat@.subrange(e * width, (e + 1) * width)
            } else {
                match fallback {
                    Some(value) => Seq::new(width as nat, |k: int| value),
                    None => old(rows)@[e]@,
                }
            },
{
    let ghost before = rows@;
    let flat_len = flat.len();
    let mut e: usize = 0;
    while e < rows.len()
        invariant
            flat_len == flat@.len(),
            rows@.len() == before.len(),
            e <= rows@.len(),
            forall|x: int| 0 <= x < before.len() ==> (#[trigger] before[x])@.len() == width,
            forall|x: int| e <= x < rows@.len() ==> #[trigger] rows@[x] == before[x],
            forall|x: int|
                0 <= x < e ==> (#[trigger] rows@[x])@ == if (x + 1) * width <= flat@.len() {
                    flat@.subrange(x * width, (x + 1) * width)
                } else {
                    match fallback {
                        Some(value) => Seq::new(width as nat, |k: int| value),
                        None => before[x]@,
                    }
                },
        decreases rows@.len() - e,
    {
        // the slice fits when `e * width + width <= flat.len()`, checked without overflow
        let mut fits = true;
        if width > 0 {
            if e <= flat_len / width {
                proof {
                    let fl = flat_len as int;
                    let w = width as int;
                    let x = e as int;
                    assert(x * w <= fl) by (nonlinear_arith)
                        requires
                            x <= fl / w,
                            w > 0,
                            fl >= 0,
                    ;
                    assert((x + 1) * w == x * w + w) by (nonlinear_arith);
                }
                fits = flat_len - e * width >= width;
            } else {
                proof {
                    let fl = flat_len as int;
                    let w = width as int;
                    let x = e as int;
                    assert(x * w > fl) by (nonlinear_arith)
                        requires
                            x > fl / w,
                            w > 0,
                            fl >= 0,
                    ;
                    assert((x + 1) * w == x * w + w) by (nonlinear_arith);
                }
                fits = false;
            }
        } else {
            proof {
                assert((e + 1) * width == 0) by (nonlinear_arith)
                    requires
                        width == 0,
                ;
                assert(e * width == 0) by (nonlinear_arith)
                    requires
                        width == 0,
                ;
            }
        }
        if fits {
            let start = e * width;
            let mut row: Vec<T> = Vec::new();
            let mut k: usize = 0;
            while k < width
                invariant
                    flat_len == flat@.len(),
                    start + width <= flat@.len(),
                    k <= width,
                    row@ == flat@.subrange(start as int, start + k),
                decreases width - k,
            {
                row.push(flat[start + k]);
                k = k + 1;
                assert(row@ =~= flat@.subrange(start as int, start + k));
            }
            rows.set(e, row);
        } else {
            match fallback {
                Some(value) => {
                    rows.set(e, crate::rollout::filled(value, width));
                },
                None => {},
            }
        }
        e = e + 1;
    }
}

/// A fall always ends the episode as a true terminal, never as a time-limit
/// cut, and always resets, whatever the reset policy; without a fall the
/// episode is never terminated, is truncated exactly when the advanced
/// counter reaches the horizon (resetting only if the policy asks), and
/// otherwise goes on with its counter one step further.
pub proof fn lemma_fall_terminates(steps: u32, horizon: u32, fallen: bool, reset_on_truncate: bool)
    ensures
        ({
            let t = spec_episode_transition(steps, horizon, fallen, reset_on_truncate);
            &&& fallen ==> t.terminated && !t.truncated && t.done && t.reset && t.steps == 0
            &&& !fallen ==> !t.terminated
            &&& !fallen && steps + 1 >= horizon ==> t.truncated && t.done && t.steps == 0 && t.reset
                == reset_on_truncate
            &&& !fallen && steps + 1 < horizon ==> !t.truncated && !t.done && !t.reset && t.steps == steps + 1
        }),
{
}

} // verus!
