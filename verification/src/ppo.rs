//! Minibatch planning for PPO updates.
//!
//! Each update epoch visits the rollout's transitions in a shuffled order and
//! cuts that order into consecutive minibatches. The shuffle is a
//! Fisher-Yates pass driven by a 64-bit linear congruential generator seeded
//! from the transition count, so it is the same for every epoch and run.
use vstd::prelude::*;

verus! {

/// Multiplier of the shuffle's linear congruential generator.
pub const LCG_MULTIPLIER: u64 = 6364136223846793005;

/// Offset added to the transition count to seed the generator.
pub const SHUFFLE_SEED_OFFSET: u64 = 0x9E37_79B9;

/// One generator step: `state * LCG_MULTIPLIER + 1`, wrapping.
pub open spec fn lcg_step(state: u64) -> u64 {
    vstd::wrapping::u64_specs::wrapping_add(vstd::wrapping::u64_specs::wrapping_mul(state, LCG_MULTIPLIER), 1)
}

/// Generator state after `t` steps, for `n` transitions.
#[verifier::opaque]
pub open spec fn shuffle_state(n: nat, t: nat) -> u64
    decreases t,
{
    if t == 0 {
        (n + SHUFFLE_SEED_OFFSET) as u64
    } else {
        lcg_step(shuffle_state(n, (t - 1) as nat))
    }
}

/// Exchanges positions `i` and `j` of `s`.
pub open spec fn swapped(s: Seq<usize>, i: int, j: int) -> Seq<usize> {
    s.update(i, s[j]).update(j, s[i])
}

/// Position swapped with position `n - t` at step `t`.
pub open spec fn partner(n: nat, t: nat) -> int {
    ((shuffle_state(n, t) as usize) % ((n - t + 1) as usize)) as int
}

/// The order after `t` Fisher-Yates steps: step `t` swaps position `n - t`
/// with position `state_t mod (n - t + 1)`.
pub open spec fn shuffled(n: nat, t: nat) -> Seq<usize>
    decreases t,
{
    if t == 0 {
        Seq::new(n, |i: int| i as usize)
    } else {
        swapped(shuffled(n, (t - 1) as nat), n - t, partner(n, t))
    }
}

/// The full shuffle of `n` transition indices.
pub open spec fn shuffle_order(n: nat) -> Seq<usize> {
    if n == 0 {
        Seq::empty()
    } else {
        shuffled(n, (n - 1) as nat)
    }
}

/// `s` holds each of `0..n` exactly once.
pub open spec fn is_permutation(s: Seq<usize>, n: nat) -> bool {
    &&& s.len() == n
    &&& forall|i: int| 0 <= i < n ==> #[trigger] s[i] < n
    &&& forall|i: int, j: int| 0 <= i < j < n ==> s[i] != s[j]
}

/// Transition indices `0..transition_count` in the order an update epoch visits them.
pub fn shuffled_indices(transition_count: usize) -> (indices: Vec<usize>)
    requires
        transition_count + SHUFFLE_SEED_OFFSET <= u64::MAX,
    ensures
        indices@ == shuffle_order(transition_count as nat),
{
    let mut indices: Vec<usize> = Vec::new();
    let mut i: usize = 0;
    while i < transition_count
        invariant
            i <= transition_count,
            indices@ == Seq::new(i as nat, |k: int| k as usize),
        decreases transition_count - i,
    {
        indices.push(i);
        i = i + 1;
        assert(indices@ =~= Seq::new(i as nat, |k: int| k as usize));
    }
    if transition_count == 0 {
        return indices;
    }
    let ghost n = transition_count as nat;
    let mut state: u64 = transition_count as u64 + SHUFFLE_SEED_OFFSET;
    assert(state == shuffle_state(n, 0)) by {
        reveal(shuffle_state);
    }
    let mut index: usize = transition_count - 1;
    while index >= 1
        invariant
            transition_count >= 1,
            n == transition_count,
            index < transition_count,
            state == shuffle_state(n, (transition_count - 1 - index) as nat),
            indices@ == shuffled(n, (transition_count - 1 - index) as nat),
        decreases index,
    {
        state = state.wrapping_mul(LCG_MULTIPLIER).wrapping_add(1);
        let partner = (state as usize) % (index + 1);
        let ghost t = (transition_count - index) as nat;
        assert(state == shuffle_state(n, t)) by {
            reveal_with_fuel(shuffle_state, 2);
        }
        assert(partner == self::partner(n, t));
        assert(indices@.len() == transition_count) by {
            lemma_shuffled_len(n, (t - 1) as nat);
        }
        proof {
            assert(shuffled(n, t) == swapped(shuffled(n, (t - 1) as nat), n - t, self::partner(n, t)));
        }
        let a = indices[index];
        let b = indices[partner];
        indices.set(index, b);
        indices.set(partner, a);
        assert(indices@ =~= shuffled(n, t));
        index = index - 1;
    }
    indices
}

proof fn lemma_shuffled_len(n: nat, t: nat)
    requires
        t < n,
        n <= usize::MAX,
    ensures
        shuffled(n, t).len() == n,
    decreases t,
{
    if t > 0 {
        lemma_shuffled_len(n, (t - 1) as nat);
        lemma_partner_range(n, t);
    }
}

proof fn lemma_partner_range(n: nat, t: nat)
    requires
        1 <= t < n,
        n <= usize::MAX,
    ensures
        0 <= partner(n, t) <= n - t,
{
    let m = (n - t + 1) as usize;
    assert(m == n - t + 1);
    let x = shuffle_state(n, t) as usize;
    assert(x % m < m);
}

/// Every update epoch visits each transition exactly once: the shuffle is a
/// permutation of `0..n`.
pub proof fn lemma_shuffle_is_permutation(n: nat)
    requires
        n <= usize::MAX,
    ensures
        is_permutation(shuffle_order(n), n),
{
    if n > 0 {
        lemma_shuffled_permutation(n, (n - 1) as nat);
    }
}

proof fn lemma_shuffled_permutation(n: nat, t: nat)
    requires
        t < n,
        n <= usize::MAX,
    ensures
        is_permutation(shuffled(n, t), n),
    decreases t,
{
    if t > 0 {
        lemma_shuffled_permutation(n, (t - 1) as nat);
        let prev = shuffled(n, (t - 1) as nat);
        let index = n - t;
        let partner = partner(n, t);
        let next = swapped(prev, index, partner);
        assert(next == shuffled(n, t));
        lemma_partner_range(n, t);
        lemma_shuffled_len(n, t);
        assert forall|i: int, j: int| 0 <= i < j < n implies next[i] != next[j] by {
            let pi = if i == partner { index } else if i == index { partner } else { i };
            let pj = if j == partner { index } else if j == index { partner } else { j };
            assert(next[i] == prev[pi]);
            assert(next[j] == prev[pj]);
            if pi < pj {
                assert(prev[pi] != prev[pj]);
            } else {
                assert(prev[pj] != prev[pi]);
            }
        }
    }
}

/// Minibatch size actually used: the requested size, capped at the number of
/// transitions, and at least 1.
pub open spec fn spec_minibatch_size(requested: nat, transition_count: nat) -> nat {
    let capped = if requested < transition_count { requested } else { transition_count };
    if capped < 1 { 1 } else { capped }
}

/// Minibatch size actually used: the requested size, capped at the number of
/// transitions, and at least 1.
pub fn effective_minibatch_size(requested: usize, transition_count: usize) -> (size: usize)
    ensures
        size == spec_minibatch_size(requested as nat, transition_count as nat),
        size >= 1,
        requested >= 1 ==> size <= requested,
        transition_count >= 1 ==> size <= transition_count,
        1 <= requested <= transition_count ==> size == requested,
{
    let capped = if requested < transition_count { requested } else { transition_count };
    if capped < 1 { 1 } else { capped }
}

/// Positions `[start, end)` of the `k`-th minibatch in the shuffled order.
pub open spec fn minibatch_range(transition_count: nat, size: nat, k: nat) -> (nat, nat) {
    let start = k * size;
    let end = if (k + 1) * size < transition_count { (k + 1) * size } else { transition_count };
    (start, end)
}

/// Number of minibatches: `ceil(transition_count / size)`.
pub open spec fn minibatch_count(transition_count: nat, size: nat) -> nat {
    ((transition_count + size - 1) / (size as int)) as nat
}

/// Cuts `transition_count` shuffled positions into consecutive minibatches of
/// the effective size; the last one may be shorter.
pub fn minibatch_ranges(transition_count: usize, requested_size: usize) -> (ranges: Vec<(usize, usize)>)
    ensures
        ({
            let size = spec_minibatch_size(requested_size as nat, transition_count as nat);
            &&& ranges@.len() == minibatch_count(transition_count as nat, size)
            &&& forall|k: int|
                0 <= k < ranges@.len() ==> (#[trigger] ranges@[k]).0 == minibatch_range(
                    transition_count as nat,
                    size,
                    k as nat,
                ).0 && ranges@[k].1 == minibatch_range(transition_count as nat, size, k as nat).1
        }),
{
    let size = effective_minibatch_size(requested_size, transition_count);
    let ghost n = transition_count as nat;
    let ghost sz = size as nat;
    let mut ranges: Vec<(usize, usize)> = Vec::new();
    let mut start: usize = 0;
    proof {
        assert(0 * sz == 0) by (nonlinear_arith);
        lemma_minibatch_count(n, sz, 0);
        if n == 0 {
            assert(minibatch_count(n, sz) == 0) by (nonlinear_arith)
                requires
                    sz >= 1,
                    minibatch_count(n, sz) == ((n + sz - 1) / (sz as int)),
                    n == 0,
            ;
        }
    }
    while start < transition_count
        invariant
            size >= 1,
            sz == size,
            n == transition_count,
            sz == spec_minibatch_size(requested_size as nat, n),
            start <= transition_count,
            start < transition_count ==> start == ranges@.len() * sz && ranges@.len() < minibatch_count(n, sz),
            start == transition_count ==> ranges@.len() == minibatch_count(n, sz),
            forall|k: int|
                0 <= k < ranges@.len() ==> (#[trigger] ranges@[k]).0 == minibatch_range(n, sz, k as nat).0
                    && ranges@[k].1 == minibatch_range(n, sz, k as nat).1,
        decreases transition_count - start,
    {
        let end = if transition_count - start < size { transition_count } else { start + size };
        let ghost k = ranges@.len();
        ranges.push((start, end));
        proof {
            assert((k + 1) * sz == k * sz + sz) by (nonlinear_arith);
            lemma_minibatch_count(n, sz, (k + 1) as nat);
            lemma_minibatch_count(n, sz, k as nat);
        }
        if transition_count - start <= size {
            start = transition_count;
        } else {
            start = start + size;
        }
    }
    ranges
}

/// The minibatches of an epoch cut the shuffled positions `0..n` into
/// consecutive, non-empty pieces of at most `size` positions: each minibatch
/// ends where the next begins, and position `i` lies in minibatch `i / size`.
pub proof fn lemma_minibatches_partition(n: nat, size: nat)
    requires
        size >= 1,
    ensures
        forall|k: nat|
            k < minibatch_count(n, size) ==> {
                let (start, end) = #[trigger] minibatch_range(n, size, k);
                start < end && end - start <= size && end <= n
            },
        forall|k: nat|
            k + 1 < minibatch_count(n, size) ==> (#[trigger] minibatch_range(n, size, k)).1 == minibatch_range(
                n,
                size,
                k + 1,
            ).0,
        minibatch_count(n, size) > 0 ==> minibatch_range(n, size, 0).0 == 0 && minibatch_range(
            n,
            size,
            (minibatch_count(n, size) - 1) as nat,
        ).1 == n,
        forall|i: nat|
            i < n ==> (i / size) < minibatch_count(n, size) && minibatch_range(n, size, #[trigger] (i / size)).0 <= i
                < minibatch_range(n, size, i / size).1,
{
    assert forall|k: nat| k < minibatch_count(n, size) implies {
        let (start, end) = #[trigger] minibatch_range(n, size, k);
        start < end && end - start <= size && end <= n
    } by {
        lemma_minibatch_count(n, size, k);
        assert((k + 1) * size == k * size + size) by (nonlinear_arith);
    }
    assert forall|k: nat| k + 1 < minibatch_count(n, size) implies (#[trigger] minibatch_range(n, size, k)).1
        == minibatch_range(n, size, k + 1).0 by {
        lemma_minibatch_count(n, size, k + 1);
    }
    if minibatch_count(n, size) > 0 {
        let last = (minibatch_count(n, size) - 1) as nat;
        lemma_minibatch_count(n, size, last + 1);
        assert(0 * size == 0) by (nonlinear_arith);
    }
    assert forall|i: nat| i < n implies (i / size) < minibatch_count(n, size) && minibatch_range(
        n,
        size,
        #[trigger] (i / size),
    ).0 <= i < minibatch_range(n, size, i / size).1 by {
        let k = i / size;
        assert(k * size <= i < (k + 1) * size) by (nonlinear_arith)
            requires
                size >= 1,
                k == i / size,
        ;
        lemma_minibatch_count(n, size, k);
    }
}

/// `k * size < n` exactly when `k` is below the minibatch count.
proof fn lemma_minibatch_count(n: nat, size: nat, k: nat)
    requires
        size >= 1,
    ensures
        k * size < n <==> k < minibatch_count(n, size),
        k * size >= n <==> k >= minibatch_count(n, size),
{
    let c = minibatch_count(n, size);
    assert(c * size >= n && (c == 0 || (c - 1) * size < n)) by (nonlinear_arith)
        requires
            size >= 1,
            c == ((n + size - 1) / (size as int)),
    ;
    if k < c {
        assert(k * size <= (c - 1) * size) by (nonlinear_arith)
            requires
                k <= c - 1,
        ;
    } else {
        assert(k * size >= c * size) by (nonlinear_arith)
            requires
                k >= c,
        ;
    }
}

/// The minibatch size an epoch uses is at least one, never more than the
/// requested size (when one was requested), never more than the number of
/// transitions (when there are any), equal to the request when the rollout
/// holds that many transitions, and equal to the whole rollout when it holds
/// fewer; so every minibatch of a non-empty rollout holds between one and
/// the requested number of transitions.
pub proof fn lemma_minibatch_size_respects_request(requested: nat, transition_count: nat)
    ensures
        spec_minibatch_size(requested, transition_count) >= 1,
        requested >= 1 ==> spec_minibatch_size(requested, transition_count) <= requested,
        transition_count >= 1 ==> spec_minibatch_size(requested, transition_count) <= transition_count,
        1 <= requested <= transition_count ==> spec_minibatch_size(requested, transition_count) == requested,
        1 <= transition_count <= requested ==> spec_minibatch_size(requested, transition_count)
            == transition_count,
        requested == 0 ==> spec_minibatch_size(requested, transition_count) == 1,
        forall|k: nat|
            k < minibatch_count(transition_count, spec_minibatch_size(requested, transition_count)) ==> {
                let (start, end) = #[trigger] minibatch_range(
                    transition_count,
                    spec_minibatch_size(requested, transition_count),
                    k,
                );
                &&& start < end
                &&& requested >= 1 ==> end - start <= requested
            },
{
    let size = spec_minibatch_size(requested, transition_count);
    lemma_minibatches_partition(transition_count, size);
}

} // verus!
