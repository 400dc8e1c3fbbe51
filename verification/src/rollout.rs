//! On-policy rollout storage for continuous-control PPO.
//!
//! Transitions are stored step-major: env `e` at step `s` is transition
//! `s * env_count + e`; per-transition vectors (observations, actions) occupy
//! `dim` consecutive entries starting at `transition * dim`. The element type
//! `T` is the numeric type of the model (the trainer uses 32-bit floats).
use vstd::prelude::*;
use crate::episodes::{are_episode_spans, episode_spans, EpisodeSpan};

verus! {

/// A vector of `n` copies of `value`.
pub fn filled<T: Copy>(value: T, n: usize) -> (v: Vec<T>)
    ensures
        v@ == Seq::new(n as nat, |i: int| value),
{
    let mut v: Vec<T> = Vec::new();
    let mut i: usize = 0;
    while i < n
        invariant
            i <= n,
            v@ == Seq::new(i as nat, |k: int| value),
        decreases n - i,
    {
        v.push(value);
        i = i + 1;
        assert(v@ =~= Seq::new(i as nat, |k: int| value));
    }
    v
}

/// `dst` after writing rows `rows[0..row_count]`, each `width` wide, starting at row `base_row`.
pub open spec fn rows_written<T>(
    before: Seq<T>,
    after: Seq<T>,
    base_row: int,
    rows: Seq<Vec<T>>,
    row_count: int,
    width: int,
) -> bool {
    &&& after.len() == before.len()
    &&& forall|r: int, k: int|
        0 <= r < row_count && 0 <= k < width ==> after[(base_row + r) * width + k] == #[trigger] rows[r]@[k]
    &&& forall|i: int|
        0 <= i < before.len() && !(base_row * width <= i < (base_row + row_count) * width) ==> #[trigger] after[i]
            == before[i]
}

proof fn lemma_row_bounds(base_row: int, r: int, row_count: int, width: int, k: int)
    requires
        0 <= base_row,
        0 <= r < row_count,
        0 <= k < width,
    ensures
        base_row * width <= (base_row + r) * width + k,
        (base_row + r) * width + k < (base_row + row_count) * width,
        (base_row + r) * width + k < (base_row + r + 1) * width,
        (base_row + r) * width <= (base_row + r) * width + k,
{
    assert(base_row * width <= (base_row + r) * width) by (nonlinear_arith)
        requires
            0 <= r,
            0 <= k < width,
    ;
    assert((base_row + r) * width + k < (base_row + r + 1) * width) by (nonlinear_arith)
        requires
            0 <= k < width,
    ;
    assert((base_row + r + 1) * width <= (base_row + row_count) * width) by (nonlinear_arith)
        requires
            r + 1 <= row_count,
            0 <= k < width,
    ;
}

/// Copies `rows[0..row_count]` (each exactly `width` long) into `dst`, row `r` at offset `(base_row + r) * width`.
pub fn write_rows<T: Copy>(dst: &mut Vec<T>, base_row: usize, rows: &Vec<Vec<T>>, row_count: usize, width: usize)
    requires
        row_count <= rows@.len(),
        base_row + row_count <= usize::MAX,
        forall|r: int| 0 <= r < row_count ==> (#[trigger] rows@[r])@.len() == width,
        (base_row + row_count) * width <= old(dst)@.len(),
    ensures
        rows_written(old(dst)@, final(dst)@, base_row as int, rows@, row_count as int, width as int),
{
    let ghost before = dst@;
    let dst_len = dst.len();
    let mut r: usize = 0;
    while r < row_count
        invariant
            dst_len == before.len(),
            r <= row_count,
            row_count <= rows@.len(),
            base_row + row_count <= usize::MAX,
            forall|x: int| 0 <= x < row_count ==> (#[trigger] rows@[x])@.len() == width,
            (base_row + row_count) * width <= before.len(),
            rows_written(before, dst@, base_row as int, rows@, r as int, width as int),
        decreases row_count - r,
    {
        proof {
            assert((base_row + r + 1) * width <= (base_row + row_count) * width) by (nonlinear_arith)
                requires
                    r + 1 <= row_count,
            ;
            assert((base_row + r) * width + width == (base_row + r + 1) * width) by (nonlinear_arith);
            assert((base_row + r) * width <= (base_row + r + 1) * width) by (nonlinear_arith);
        }
        let offset = (base_row + r) * width;
        let ghost mid = dst@;
        let mut k: usize = 0;
        while k < width
            invariant
                k <= width,
                r < row_count,
                row_count <= rows@.len(),
                rows@[r as int]@.len() == width,
                offset == (base_row + r) * width,
                offset + width <= before.len(),
                dst_len == before.len(),
                dst@.len() == before.len(),
                forall|x: int| 0 <= x < k ==> dst@[offset + x] == rows@[r as int]@[x],
                forall|i: int| 0 <= i < before.len() && !(offset <= i < offset + k) ==> #[trigger] dst@[i] == mid[i],
            decreases width - k,
        {
            dst.set(offset + k, rows[r][k]);
            k = k + 1;
        }
        proof {
            assert forall|x: int, y: int|
                0 <= x < r + 1 && 0 <= y < width implies dst@[(base_row + x) * width + y] == #[trigger] rows@[x]@[y] by {
                lemma_row_bounds(base_row as int, x, r + 1, width as int, y);
                if x < r {
                    lemma_row_bounds(base_row as int, x, r as int, width as int, y);
                    assert(mid[(base_row + x) * width + y] == rows@[x]@[y]);
                } else {
                    assert(dst@[offset + y] == rows@[r as int]@[y]);
                }
            }
            assert forall|i: int|
                0 <= i < before.len() && !((base_row * width) as int <= i < (base_row + r + 1) * width) implies #[trigger] dst@[i]
                    == before[i] by {
                assert((base_row + r) * width >= base_row * width) by (nonlinear_arith);
                assert(mid[i] == before[i]);
            }
        }
        r = r + 1;
    }
}

/// Copies `src[0..count]` into `dst[base..base + count]`.
pub fn write_entries<T: Copy>(dst: &mut Vec<T>, base: usize, src: &Vec<T>, count: usize)
    requires
        count <= src@.len(),
        base + count <= old(dst)@.len(),
    ensures
        final(dst)@.len() == old(dst)@.len(),
        forall|e: int| 0 <= e < count ==> final(dst)@[base + e] == src@[e],
        forall|i: int|
            0 <= i < old(dst)@.len() && !(base <= i < base + count) ==> #[trigger] final(dst)@[i] == old(dst)@[i],
{
    let ghost before = dst@;
    let dst_len = dst.len();
    let mut e: usize = 0;
    while e < count
        invariant
            dst_len == before.len(),
            e <= count,
            count <= src@.len(),
            base + count <= before.len(),
            dst@.len() == before.len(),
            forall|x: int| 0 <= x < e ==> dst@[base + x] == src@[x],
            forall|i: int| 0 <= i < before.len() && !(base <= i < base + e) ==> #[trigger] dst@[i] == before[i],
        decreases count - e,
    {
        dst.set(base + e, src[e]);
        e = e + 1;
    }
}

/// On-policy rollout storage for `env_count` envs over `step_count` steps.
#[derive(Clone, Debug)]
pub struct RolloutBatch<T> {
    pub observations: Vec<T>,
    pub actions: Vec<T>,
    pub log_probs: Vec<T>,
    pub rewards: Vec<T>,
    pub values: Vec<T>,
    /// True terminals only (not time-limit truncations): advantage estimation must not bootstrap across them.
    pub terminations: Vec<bool>,
    /// Time-limit cuts: they end an episode for return metrics, but values bootstrap across them.
    pub truncations: Vec<bool>,
    pub env_count: usize,
    pub step_count: usize,
    pub observation_dim: usize,
    pub action_dim: usize,
}

impl<T: Copy> RolloutBatch<T> {
    /// Number of transitions the batch holds.
    pub open spec fn transitions(&self) -> int {
        self.env_count * self.step_count
    }

    /// Every buffer has the size the dimensions call for.
    pub open spec fn well_formed(&self) -> bool {
        &&& self.transitions() <= usize::MAX
        &&& self.transitions() * self.observation_dim <= usize::MAX
        &&& self.transitions() * self.action_dim <= usize::MAX
        &&& self.observations@.len() == self.transitions() * self.observation_dim
        &&& self.actions@.len() == self.transitions() * self.action_dim
        &&& self.log_probs@.len() == self.transitions()
        &&& self.rewards@.len() == self.transitions()
        &&& self.values@.len() == self.transitions()
        &&& self.terminations@.len() == self.transitions()
        &&& self.truncations@.len() == self.transitions()
    }

    /// Zeroed storage for `env_count * step_count` transitions.
    pub fn new(env_count: usize, step_count: usize, observation_dim: usize, action_dim: usize, zero: T) -> (batch: Self)
        requires
            env_count * step_count * observation_dim <= usize::MAX,
            env_count * step_count * action_dim <= usize::MAX,
            env_count * step_count <= usize::MAX,
        ensures
            batch.well_formed(),
            batch.env_count == env_count,
            batch.step_count == step_count,
            batch.observation_dim == observation_dim,
            batch.action_dim == action_dim,
            forall|i: int| 0 <= i < batch.observations@.len() ==> #[trigger] batch.observations@[i] == zero,
            forall|i: int| 0 <= i < batch.actions@.len() ==> #[trigger] batch.actions@[i] == zero,
            forall|i: int|
                0 <= i < batch.transitions() ==> #[trigger] batch.log_probs@[i] == zero && batch.rewards@[i] == zero
                    && batch.values@[i] == zero && !batch.terminations@[i] && !batch.truncations@[i],
    {
        let transitions = env_count * step_count;
        RolloutBatch {
            observations: filled(zero, transitions * observation_dim),
            actions: filled(zero, transitions * action_dim),
            log_probs: filled(zero, transitions),
            rewards: filled(zero, transitions),
            values: filled(zero, transitions),
            terminations: filled(false, transitions),
            truncations: filled(false, transitions),
            env_count,
            step_count,
            observation_dim,
            action_dim,
        }
    }

    /// Number of transitions the batch holds.
    pub fn transition_count(&self) -> (count: usize)
        requires
            self.well_formed(),
        ensures
            count == self.transitions(),
    {
        self.env_count * self.step_count
    }

    /// Records one step of every env: entry `e` of each argument is env `e`'s data at `step`.
    pub fn store_step(
        &mut self,
        step: usize,
        observations: &Vec<Vec<T>>,
        actions: &Vec<Vec<T>>,
        log_probs: &Vec<T>,
        rewards: &Vec<T>,
        values: &Vec<T>,
        terminations: &Vec<bool>,
        truncations: &Vec<bool>,
    )
        requires
            old(self).well_formed(),
            step < old(self).step_count,
            old(self).env_count <= observations@.len(),
            old(self).env_count <= actions@.len(),
            old(self).env_count <= log_probs@.len(),
            old(self).env_count <= rewards@.len(),
            old(self).env_count <= values@.len(),
            old(self).env_count <= terminations@.len(),
            old(self).env_count <= truncations@.len(),
            forall|e: int| 0 <= e < old(self).env_count ==> (#[trigger] observations@[e])@.len() == old(self).observation_dim,
            forall|e: int| 0 <= e < old(self).env_count ==> (#[trigger] actions@[e])@.len() == old(self).action_dim,
        ensures
            final(self).well_formed(),
            final(self).env_count == old(self).env_count,
            final(self).step_count == old(self).step_count,
            final(self).observation_dim == old(self).observation_dim,
            final(self).action_dim == old(self).action_dim,
            rows_written(
                old(self).observations@,
                final(self).observations@,
                step * old(self).env_count,
                observations@,
                old(self).env_count as int,
                old(self).observation_dim as int,
            ),
            rows_written(
                old(self).actions@,
                final(self).actions@,
                step * old(self).env_count,
                actions@,
                old(self).env_count as int,
                old(self).action_dim as int,
            ),
            Self::entries_written(old(self).log_probs@, final(self).log_probs@, step * old(self).env_count, log_probs@, old(self).env_count as int),
            Self::entries_written(old(self).rewards@, final(self).rewards@, step * old(self).env_count, rewards@, old(self).env_count as int),
            Self::entries_written(old(self).values@, final(self).values@, step * old(self).env_count, values@, old(self).env_count as int),
            Self::flags_written(
                old(self).terminations@,
                final(self).terminations@,
                step * old(self).env_count,
                terminations@,
                old(self).env_count as int,
            ),
            Self::flags_written(
                old(self).truncations@,
                final(self).truncations@,
                step * old(self).env_count,
                truncations@,
                old(self).env_count as int,
            ),
    {
        let env_count = self.env_count;
        proof {
            assert(step * env_count + env_count == (step + 1) * env_count) by (nonlinear_arith);
            assert((step + 1) * env_count <= self.env_count * self.step_count) by (nonlinear_arith)
                requires
                    step < self.step_count,
                    env_count == self.env_count,
            ;
            assert((step * env_count + env_count) * self.observation_dim == (step + 1) * env_count * self.observation_dim)
                by (nonlinear_arith);
            assert((step + 1) * env_count * self.observation_dim <= self.transitions() * self.observation_dim)
                by (nonlinear_arith)
                requires
                    (step + 1) * env_count <= self.transitions(),
            ;
            assert((step * env_count + env_count) * self.action_dim == (step + 1) * env_count * self.action_dim)
                by (nonlinear_arith);
            assert((step + 1) * env_count * self.action_dim <= self.transitions() * self.action_dim)
                by (nonlinear_arith)
                requires
                    (step + 1) * env_count <= self.transitions(),
            ;
        }
        let base = step * env_count;
        write_rows(&mut self.observations, base, observations, env_count, self.observation_dim);
        write_rows(&mut self.actions, base, actions, env_count, self.action_dim);
        write_entries(&mut self.log_probs, base, log_probs, env_count);
        write_entries(&mut self.rewards, base, rewards, env_count);
        write_entries(&mut self.values, base, values, env_count);
        write_entries(&mut self.terminations, base, terminations, env_count);
        write_entries(&mut self.truncations, base, truncations, env_count);
    }

    /// `after` is `before` with `src[0..count]` written at `base`.
    pub open spec fn entries_written(before: Seq<T>, after: Seq<T>, base: int, src: Seq<T>, count: int) -> bool {
        &&& after.len() == before.len()
        &&& forall|e: int| 0 <= e < count ==> after[base + e] == #[trigger] src[e]
        &&& forall|i: int| 0 <= i < before.len() && !(base <= i < base + count) ==> #[trigger] after[i] == before[i]
    }

    /// `after` is `before` with `src[0..count]` written at `base`.
    pub open spec fn flags_written(before: Seq<bool>, after: Seq<bool>, base: int, src: Seq<bool>, count: int) -> bool {
        &&& after.len() == before.len()
        &&& forall|e: int| 0 <= e < count ==> after[base + e] == #[trigger] src[e]
        &&& forall|i: int| 0 <= i < before.len() && !(base <= i < base + count) ==> #[trigger] after[i] == before[i]
    }

    /// Per transition: the episode ended there (termination or truncation).
    pub fn ended_flags(&self) -> (ended: Vec<bool>)
        requires
            self.well_formed(),
        ensures
            ended@.len() == self.transitions(),
            forall|i: int| 0 <= i < self.transitions() ==> #[trigger] ended@[i] == (self.terminations@[i] || self.truncations@[i]),
    {
        let count = self.transition_count();
        let mut ended: Vec<bool> = Vec::new();
        let mut i: usize = 0;
        while i < count
            invariant
                self.well_formed(),
                count == self.transitions(),
                i <= count,
                ended@.len() == i,
                forall|k: int| 0 <= k < i ==> #[trigger] ended@[k] == (self.terminations@[k] || self.truncations@[k]),
            decreases count - i,
        {
            ended.push(self.terminations[i] || self.truncations[i]);
            i = i + 1;
        }
        ended
    }

    /// The rollout's episodes (ending at terminations, truncations, or the last step).
    pub fn episode_spans(&self) -> (spans: Vec<EpisodeSpan>)
        requires
            self.well_formed(),
        ensures
            exists|ended: Seq<bool>|
                ended.len() == self.transitions() && (forall|i: int|
                    0 <= i < self.transitions() ==> #[trigger] ended[i] == (self.terminations@[i]
                        || self.truncations@[i])) && are_episode_spans(
                    ended,
                    self.env_count as int,
                    self.step_count as int,
                    spans@,
                ),
    {
        let ended = self.ended_flags();
        let spans = episode_spans(&ended, self.env_count, self.step_count);
        assert(ended@.len() == self.transitions());
        spans
    }
}

} // verus!
