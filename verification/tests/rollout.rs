use bevy_rl::episodes::{episode_spans, EpisodeSpan};
use bevy_rl::ppo::{effective_minibatch_size, minibatch_ranges, shuffled_indices};
use bevy_rl::rollout::{filled, write_entries, write_rows, RolloutBatch};

fn span(env_index: usize, start_step: usize, length: usize) -> EpisodeSpan {
    EpisodeSpan { env_index, start_step, length }
}

#[test]
fn new_batch_is_zeroed_with_room_for_every_transition() {
    let batch = RolloutBatch::new(2, 3, 4, 1, 0.0f32);
    assert_eq!(batch.transition_count(), 6);
    assert_eq!(batch.observations.len(), 24);
    assert_eq!(batch.actions.len(), 6);
    assert_eq!(batch.rewards, vec![0.0; 6]);
    assert_eq!(batch.terminations, vec![false; 6]);
    assert_eq!(batch.truncations, vec![false; 6]);
}

#[test]
fn store_step_writes_step_major_entries() {
    let mut batch = RolloutBatch::new(2, 3, 2, 1, 0.0f32);
    batch.store_step(
        1,
        &vec![vec![1.0, 2.0], vec![3.0, 4.0]],
        &vec![vec![0.5], vec![-0.5]],
        &vec![-1.0, -2.0],
        &vec![10.0, 20.0],
        &vec![0.1, 0.2],
        &vec![false, true],
        &vec![true, false],
    );
    assert_eq!(batch.observations, vec![0.0, 0.0, 0.0, 0.0, 1.0, 2.0, 3.0, 4.0, 0.0, 0.0, 0.0, 0.0]);
    assert_eq!(batch.actions, vec![0.0, 0.0, 0.5, -0.5, 0.0, 0.0]);
    assert_eq!(batch.log_probs, vec![0.0, 0.0, -1.0, -2.0, 0.0, 0.0]);
    assert_eq!(batch.rewards, vec![0.0, 0.0, 10.0, 20.0, 0.0, 0.0]);
    assert_eq!(batch.values, vec![0.0, 0.0, 0.1, 0.2, 0.0, 0.0]);
    assert_eq!(batch.terminations, vec![false, false, false, true, false, false]);
    assert_eq!(batch.truncations, vec![false, false, true, false, false, false]);
    assert_eq!(batch.ended_flags(), vec![false, false, true, true, false, false]);
}

#[test]
fn episodes_without_ends_span_the_rollout() {
    let ended = vec![false; 6];
    assert_eq!(episode_spans(&ended, 2, 3), vec![span(0, 0, 3), span(1, 0, 3)]);
}

#[test]
fn episodes_split_at_terminations_and_truncations() {
    // env 0 ends at step 0; env 1 ends at step 1; both trajectories stay open at the end.
    let ended = vec![true, false, false, true, false, false];
    assert_eq!(episode_spans(&ended, 2, 3), vec![span(0, 0, 1), span(0, 1, 2), span(1, 0, 2), span(1, 2, 1)]);
}

#[test]
fn episode_ending_on_last_step_is_counted_once() {
    let ended = vec![false, false, true];
    assert_eq!(episode_spans(&ended, 1, 3), vec![span(0, 0, 3)]);
}

#[test]
fn empty_rollout_has_no_episodes() {
    assert!(episode_spans(&vec![], 0, 5).is_empty());
    assert!(episode_spans(&vec![], 3, 0).is_empty());
}

#[test]
fn every_env_has_at_least_one_episode_and_lengths_cover_the_rollout() {
    let ended = vec![true, true, false, true, false, true, true, false, false];
    let spans = episode_spans(&ended, 3, 3);
    let total: usize = spans.iter().map(|s| s.length).sum();
    assert_eq!(total, 9);
    for env in 0..3 {
        assert!(spans.iter().any(|s| s.env_index == env));
    }
}

#[test]
fn batch_episode_spans_use_both_end_flags() {
    let mut batch = RolloutBatch::new(1, 4, 1, 1, 0i32);
    let obs = vec![vec![0]];
    let act = vec![vec![0]];
    batch.store_step(1, &obs, &act, &vec![0], &vec![0], &vec![0], &vec![true], &vec![false]);
    batch.store_step(2, &obs, &act, &vec![0], &vec![0], &vec![0], &vec![false], &vec![true]);
    assert_eq!(batch.episode_spans(), vec![span(0, 0, 2), span(0, 2, 1), span(0, 3, 1)]);
}

#[test]
fn filled_repeats_a_value() {
    assert_eq!(filled(7u8, 3), vec![7, 7, 7]);
    assert!(filled(7u8, 0).is_empty());
}

#[test]
fn write_rows_copies_rows_at_an_offset() {
    let mut dst = vec![0; 8];
    write_rows(&mut dst, 1, &vec![vec![1, 2], vec![3, 4]], 2, 2);
    assert_eq!(dst, vec![0, 0, 1, 2, 3, 4, 0, 0]);
}

#[test]
fn write_entries_copies_a_prefix() {
    let mut dst = vec![0; 5];
    write_entries(&mut dst, 2, &vec![9, 8, 7], 2);
    assert_eq!(dst, vec![0, 0, 9, 8, 0]);
}

#[test]
fn shuffled_indices_match_the_trainer_order() {
    assert_eq!(shuffled_indices(0), Vec::<usize>::new());
    assert_eq!(shuffled_indices(1), vec![0]);
    assert_eq!(shuffled_indices(2), vec![1, 0]);
    assert_eq!(shuffled_indices(5), vec![1, 2, 3, 4, 0]);
    assert_eq!(shuffled_indices(10), vec![3, 0, 7, 5, 4, 2, 1, 9, 6, 8]);
}

#[test]
fn shuffled_indices_are_a_permutation() {
    for n in [3usize, 17, 64, 257] {
        let mut order = shuffled_indices(n);
        order.sort();
        assert_eq!(order, (0..n).collect::<Vec<_>>());
    }
}

#[test]
fn minibatch_size_is_capped_and_positive() {
    assert_eq!(effective_minibatch_size(256, 1000), 256);
    assert_eq!(effective_minibatch_size(256, 100), 100);
    assert_eq!(effective_minibatch_size(0, 100), 1);
    assert_eq!(effective_minibatch_size(256, 0), 1);
}

#[test]
fn minibatch_ranges_cover_transitions_in_order() {
    assert_eq!(minibatch_ranges(10, 4), vec![(0, 4), (4, 8), (8, 10)]);
    assert_eq!(minibatch_ranges(8, 4), vec![(0, 4), (4, 8)]);
    assert_eq!(minibatch_ranges(5, 256), vec![(0, 5)]);
    assert!(minibatch_ranges(0, 4).is_empty());
}
