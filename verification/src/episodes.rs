//! Episode boundaries inside an on-policy rollout.
//!
//! A rollout stores `step_count` steps for each of `env_count` environments,
//! step-major: the transition of env `e` at step `s` sits at index
//! `s * env_count + e`. An episode of an env ends at a step flagged as ended
//! (termination or truncation) or at the last step of the rollout; a
//! trajectory still open at the end of the rollout counts as its own episode.
use vstd::prelude::*;

verus! {

/// One episode of one env: `length` steps starting at `start_step`.
#[derive(Clone, Copy, Debug, PartialEq, Eq, Structural)]
pub struct EpisodeSpan {
    pub env_index: usize,
    pub start_step: usize,
    pub length: usize,
}

/// Index of env `env`'s transition at step `step` in step-major storage.
pub open spec fn transition_index(env_count: int, env: int, step: int) -> int {
    step * env_count + env
}

/// Step `step` of env `env` closes an episode.
pub open spec fn closes_episode(ended: Seq<bool>, env_count: int, step_count: int, env: int, step: int) -> bool {
    step == step_count - 1 || ended[transition_index(env_count, env, step)]
}

/// `span` is one whole episode: it ends at a closing step and no earlier step of it closes.
pub open spec fn is_episode(ended: Seq<bool>, env_count: int, step_count: int, span: EpisodeSpan) -> bool {
    &&& span.env_index < env_count
    &&& span.length >= 1
    &&& span.start_step + span.length <= step_count
    &&& closes_episode(ended, env_count, step_count, span.env_index as int, span.start_step + span.length - 1)
    &&& forall|s: int|
        span.start_step <= s < span.start_step + span.length - 1 ==> !#[trigger] closes_episode(
            ended,
            env_count,
            step_count,
            span.env_index as int,
            s,
        )
}

/// `next` follows `prev`: it starts where `prev` ends, or starts the next env after `prev` closed the last step.
pub open spec fn follows(step_count: int, prev: EpisodeSpan, next: EpisodeSpan) -> bool {
    if next.env_index == prev.env_index {
        next.start_step == prev.start_step + prev.length
    } else {
        &&& next.env_index == prev.env_index + 1
        &&& next.start_step == 0
        &&& prev.start_step + prev.length == step_count
    }
}

/// `spans` lists every episode of the rollout, env by env and in step order.
pub open spec fn are_episode_spans(ended: Seq<bool>, env_count: int, step_count: int, spans: Seq<EpisodeSpan>) -> bool {
    &&& (spans.len() == 0 <==> (env_count == 0 || step_count == 0))
    &&& forall|k: int| 0 <= k < spans.len() ==> is_episode(ended, env_count, step_count, #[trigger] spans[k])
    &&& forall|k: int| 0 < k < spans.len() ==> follows(step_count, spans[k - 1], #[trigger] spans[k])
    &&& spans.len() > 0 ==> spans[0].env_index == 0 && spans[0].start_step == 0
    &&& spans.len() > 0 ==> spans.last().env_index == env_count - 1 && spans.last().start_step
        + spans.last().length == step_count
}

/// Total number of steps covered by `spans`.
pub open spec fn total_length(spans: Seq<EpisodeSpan>) -> nat
    decreases spans.len(),
{
    if spans.len() == 0 {
        0
    } else {
        total_length(spans.drop_last()) + spans.last().length as nat
    }
}

/// Splits a rollout into episodes.
///
/// `ended[s * env_count + e]` tells whether env `e`'s episode ended at step
/// `s` (termination or time-limit truncation). Every episode of every env is
/// listed, env by env, in step order; the open trajectory at the end of the
/// rollout counts as an episode.
pub fn episode_spans(ended: &Vec<bool>, env_count: usize, step_count: usize) -> (spans: Vec<EpisodeSpan>)
    requires
        env_count * step_count <= ended@.len(),
    ensures
        are_episode_spans(ended@, env_count as int, step_count as int, spans@),
{
    let mut spans: Vec<EpisodeSpan> = Vec::new();
    let flag_count = ended.len();
    if env_count == 0 || step_count == 0 {
        return spans;
    }
    let ghost e_count = env_count as int;
    let ghost s_count = step_count as int;
    let mut env: usize = 0;
    while env < env_count
        invariant
            0 < env_count,
            0 < step_count,
            env_count * step_count <= ended@.len(),
            flag_count == ended@.len(),
            env <= env_count,
            e_count == env_count,
            s_count == step_count,
            forall|k: int| 0 <= k < spans@.len() ==> is_episode(ended@, e_count, s_count, #[trigger] spans@[k]),
            forall|k: int| 0 < k < spans@.len() ==> follows(s_count, spans@[k - 1], #[trigger] spans@[k]),
            spans@.len() > 0 ==> spans@[0].env_index == 0 && spans@[0].start_step == 0,
            spans@.len() == 0 <==> env == 0,
            spans@.len() > 0 ==> spans@.last().env_index + 1 == env && spans@.last().start_step
                + spans@.last().length == step_count,
        decreases env_count - env,
    {
        let mut start: usize = 0;
        let mut step: usize = 0;
        while step < step_count
            invariant
                0 < env_count,
                0 < step_count,
                env_count * step_count <= ended@.len(),
                flag_count == ended@.len(),
                env < env_count,
                e_count == env_count,
                s_count == step_count,
                start <= step <= step_count,
                forall|s: int| start <= s < step ==> !#[trigger] closes_episode(ended@, e_count, s_count, env as int, s),
                forall|k: int| 0 <= k < spans@.len() ==> is_episode(ended@, e_count, s_count, #[trigger] spans@[k]),
                forall|k: int| 0 < k < spans@.len() ==> follows(s_count, spans@[k - 1], #[trigger] spans@[k]),
                spans@.len() > 0 ==> spans@[0].env_index == 0 && spans@[0].start_step == 0,
                spans@.len() == 0 ==> env == 0 && start == 0,
                spans@.len() > 0 && start > 0 ==> spans@.last().env_index == env && spans@.last().start_step
                    + spans@.last().length == start,
                spans@.len() > 0 && start == 0 ==> spans@.last().env_index + 1 == env && spans@.last().start_step
                    + spans@.last().length == step_count,
                step == step_count ==> start == step_count,
            decreases step_count - step,
        {
            proof {
                assert(step * env_count + env < env_count * step_count) by (nonlinear_arith)
                    requires
                        step < step_count,
                        env < env_count,
                ;
            }
            let index = step * env_count + env;
            let last = step + 1 == step_count;
            if ended[index] || last {
                let span = EpisodeSpan { env_index: env, start_step: start, length: step + 1 - start };
                let ghost before = spans@;
                spans.push(span);
                proof {
                    assert(closes_episode(ended@, e_count, s_count, env as int, step as int));
                    assert(is_episode(ended@, e_count, s_count, span));
                    assert forall|k: int| 0 < k < spans@.len() implies follows(
                        s_count,
                        spans@[k - 1],
                        #[trigger] spans@[k],
                    ) by {
                        if k < spans@.len() - 1 {
                            assert(spans@[k - 1] == before[k - 1]);
                            assert(spans@[k] == before[k]);
                        }
                    }
                }
                start = step + 1;
            }
            step = step + 1;
        }
        env = env + 1;
    }
    spans
}

/// Every env is split into at least one episode, and the episodes of a
/// rollout cover each of its transitions exactly once: their lengths add up
/// to `env_count * step_count`.
pub proof fn lemma_episodes_cover_rollout(ended: Seq<bool>, env_count: int, step_count: int, spans: Seq<EpisodeSpan>)
    requires
        0 <= env_count,
        0 <= step_count,
        are_episode_spans(ended, env_count, step_count, spans),
    ensures
        total_length(spans) == env_count * step_count,
        step_count > 0 ==> spans.len() >= env_count,
{
    if spans.len() == 0 {
        if env_count != 0 {
            assert(env_count * step_count == 0) by (nonlinear_arith) requires step_count == 0;
        }
    } else {
        lemma_prefix_total(ended, env_count, step_count, spans, spans.len() as int);
        let last = spans.last();
        assert(total_length(spans.subrange(0, spans.len() as int)) == total_length(spans)) by {
            assert(spans.subrange(0, spans.len() as int) =~= spans);
        }
        assert((env_count - 1) * step_count + step_count == env_count * step_count) by (nonlinear_arith);
    }
}

/// The first `k` episodes cover the steps of the envs before the `k`-th
/// episode's env, plus that env's steps up to the episode's end; at least one
/// episode is listed per env reached.
proof fn lemma_prefix_total(ended: Seq<bool>, env_count: int, step_count: int, spans: Seq<EpisodeSpan>, k: int)
    requires
        are_episode_spans(ended, env_count, step_count, spans),
        0 < k <= spans.len(),
    ensures
        total_length(spans.subrange(0, k)) == spans[k - 1].env_index * step_count + spans[k - 1].start_step
            + spans[k - 1].length,
        k >= spans[k - 1].env_index + 1,
    decreases k,
{
    let prefix = spans.subrange(0, k);
    assert(prefix.drop_last() =~= spans.subrange(0, k - 1));
    assert(prefix.last() == spans[k - 1]);
    assert(total_length(prefix) == total_length(spans.subrange(0, k - 1)) + spans[k - 1].length);
    assert(is_episode(ended, env_count, step_count, spans[k - 1]));
    if k == 1 {
        assert(spans.subrange(0, 0) =~= Seq::<EpisodeSpan>::empty());
    } else {
        lemma_prefix_total(ended, env_count, step_count, spans, k - 1);
        assert(follows(step_count, spans[k - 2], spans[k - 1]));
        let prev = spans[k - 2];
        if spans[k - 1].env_index != prev.env_index {
            assert(prev.env_index * step_count + step_count == (prev.env_index + 1) * step_count)
                by (nonlinear_arith);
        }
    }
}

/// The episode list of a rollout is unique: any two lists that both split the
/// same rollout into its episodes are equal.
pub proof fn lemma_episode_spans_unique(
    ended: Seq<bool>,
    env_count: int,
    step_count: int,
    a: Seq<EpisodeSpan>,
    b: Seq<EpisodeSpan>,
)
    requires
        are_episode_spans(ended, env_count, step_count, a),
        are_episode_spans(ended, env_count, step_count, b),
    ensures
        a == b,
{
    let n = if a.len() < b.len() { a.len() } else { b.len() };
    assert forall|k: int| 0 <= k < n implies a[k] == b[k] by {
        lemma_spans_agree_upto(ended, env_count, step_count, a, b, k);
    }
    if a.len() < b.len() {
        lemma_spans_agree_upto(ended, env_count, step_count, a, b, a.len() - 1);
        assert(follows(step_count, b[a.len() - 1], b[a.len() as int]));
        assert(is_episode(ended, env_count, step_count, b[a.len() as int]));
    } else if b.len() < a.len() {
        lemma_spans_agree_upto(ended, env_count, step_count, a, b, b.len() - 1);
        assert(follows(step_count, a[b.len() - 1], a[b.len() as int]));
        assert(is_episode(ended, env_count, step_count, a[b.len() as int]));
    }
    assert(a =~= b);
}

proof fn lemma_spans_agree_upto(
    ended: Seq<bool>,
    env_count: int,
    step_count: int,
    a: Seq<EpisodeSpan>,
    b: Seq<EpisodeSpan>,
    k: int,
)
    requires
        are_episode_spans(ended, env_count, step_count, a),
        are_episode_spans(ended, env_count, step_count, b),
        0 <= k < a.len(),
        k < b.len(),
    ensures
        a[k] == b[k],
    decreases k,
{
    assert(is_episode(ended, env_count, step_count, a[k]));
    assert(is_episode(ended, env_count, step_count, b[k]));
    if k > 0 {
        lemma_spans_agree_upto(ended, env_count, step_count, a, b, k - 1);
        assert(follows(step_count, a[k - 1], a[k]));
        assert(follows(step_count, b[k - 1], b[k]));
    }
    assert(a[k].env_index == b[k].env_index);
    assert(a[k].start_step == b[k].start_step);
    lemma_episode_determined(ended, env_count, step_count, a[k], b[k]);
}

/// An episode is determined by its env and its first step.
proof fn lemma_episode_determined(ended: Seq<bool>, env_count: int, step_count: int, x: EpisodeSpan, y: EpisodeSpan)
    requires
        is_episode(ended, env_count, step_count, x),
        is_episode(ended, env_count, step_count, y),
        x.env_index == y.env_index,
        x.start_step == y.start_step,
    ensures
        x == y,
{
    if x.length < y.length {
        let s = x.start_step + x.length - 1;
        assert(!closes_episode(ended, env_count, step_count, y.env_index as int, s));
    } else if y.length < x.length {
        let s = y.start_step + y.length - 1;
        assert(!closes_episode(ended, env_count, step_count, x.env_index as int, s));
    }
}

} // verus!
