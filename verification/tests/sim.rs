use bevy_rl::env::{env_collision_layers, env_grid_cell, env_layer_bits, EnvId};
use bevy_rl::ground::{flail_seeds, grid_triangles, ground_sample_seed, is_limb, mix64};
use bevy_rl::plugin::{headless_env_count, headless_tick_limit, progress_due, reached_max_ticks, SimTick};
use bevy_rl::rl::{
    copy_flat_rows, episode_transition, filled_table, flatten_rows, EpisodeResetPolicy, EpisodeTransition, RlBuffers,
    SpawnEnvBatch,
};
use bevy_rl::viewer::{
    camera_plan, env_count_change, viewer_env_count, viewport_grid, viewport_layout, ViewportCell, DEFAULT_ENV_COUNT,
    MAX_VIEW_COUNT,
};

#[test]
fn env_ids_keep_their_index() {
    assert_eq!(EnvId::new(7).index(), 7);
    assert_eq!(EnvId::new(7), EnvId(7));
}

#[test]
fn env_grid_fills_rows_of_columns() {
    assert_eq!(env_grid_cell(EnvId(0), 4), (0, 0));
    assert_eq!(env_grid_cell(EnvId(5), 4), (1, 1));
    assert_eq!(env_grid_cell(EnvId(11), 4), (3, 2));
}

#[test]
fn env_grid_uses_at_least_one_column() {
    assert_eq!(env_grid_cell(EnvId(3), 0), (0, 3));
}

#[test]
fn env_grid_cells_are_distinct() {
    let cells: Vec<(u32, u32)> = (0..50).map(|id| env_grid_cell(EnvId(id), 7)).collect();
    for a in 0..cells.len() {
        for b in (a + 1)..cells.len() {
            assert_ne!(cells[a], cells[b]);
        }
    }
}

#[test]
fn env_layers_skip_the_default_layer_and_wrap_after_thirty_one() {
    assert_eq!(env_layer_bits(EnvId(0)), 1 << 1);
    assert_eq!(env_layer_bits(EnvId(30)), 1 << 31);
    assert_eq!(env_layer_bits(EnvId(31)), 1 << 1);
    assert_eq!(env_layer_bits(EnvId(45)), 1 << 15);
}

#[test]
fn env_layers_of_different_slots_do_not_overlap() {
    for a in 0..31u32 {
        for b in 0..31u32 {
            let overlap = env_layer_bits(EnvId(a)) & env_layer_bits(EnvId(b));
            assert_eq!(overlap != 0, a == b);
        }
    }
}

#[test]
fn env_collision_layers_belong_to_and_filter_the_env_layer() {
    let layers = env_collision_layers(EnvId(2));
    assert_eq!(layers.memberships.0, 1 << 3);
    assert_eq!(layers.filters.0, 1 << 3);
    let wrapped = env_collision_layers(EnvId(33));
    assert_eq!(wrapped.memberships.0, 1 << 3);
}

#[test]
fn mix64_matches_the_reference_finalizer() {
    assert_eq!(mix64(0), 0);
    assert_eq!(mix64(1), 6238072747940578789);
    assert_eq!(mix64(42), 12058926934050108962);
}

#[test]
fn ground_sample_seeds_combine_seed_row_and_column() {
    assert_eq!(ground_sample_seed(0, 0, 0), 0);
    assert_eq!(ground_sample_seed(3, 2, 5), 7963438384);
    assert_eq!(ground_sample_seed(7, 1, 1), 18581115920);
    assert_ne!(ground_sample_seed(3, 2, 5), ground_sample_seed(3, 5, 2));
}

#[test]
fn flail_seeds_spread_one_seed_into_three() {
    assert_eq!(flail_seeds(0, 0), (0, 0, 0));
    assert_eq!(flail_seeds(10, 3), (26544357693, 4300228077362341503, 12919900250232813473));
}

#[test]
fn grid_triangles_wind_each_cell_into_two_triangles() {
    assert_eq!(grid_triangles(2), vec![[0, 1, 2], [1, 3, 2]]);
    let triangles = grid_triangles(3);
    assert_eq!(triangles.len(), 8);
    assert_eq!(triangles[2], [1, 2, 4]);
    assert_eq!(triangles[7], [5, 8, 7]);
    assert!(triangles.iter().all(|t| t.iter().all(|&v| v < 9)));
}

#[test]
fn single_vertex_grid_has_no_triangles() {
    assert!(grid_triangles(1).is_empty());
}

#[test]
fn limbs_are_upper_and_lower_leg_segments() {
    assert!(is_limb("front_left_upper"));
    assert!(is_limb("back_right_lower"));
    assert!(is_limb("_lower"));
    assert!(!is_limb("torso"));
    assert!(!is_limb("upper"));
    assert!(!is_limb("front_left_upper_pad"));
}

#[test]
fn episode_step_advances_the_counter() {
    let t = episode_transition(3, 10, false, true);
    assert_eq!(t, EpisodeTransition { steps: 4, terminated: false, truncated: false, done: false, reset: false });
}

#[test]
fn fall_terminates_and_resets() {
    let t = episode_transition(3, 10, true, false);
    assert_eq!(t, EpisodeTransition { steps: 0, terminated: true, truncated: false, done: true, reset: true });
}

#[test]
fn horizon_truncates_and_resets_only_when_asked() {
    let viewer = episode_transition(9, 10, false, true);
    assert_eq!(viewer, EpisodeTransition { steps: 0, terminated: false, truncated: true, done: true, reset: true });
    let trainer = episode_transition(9, 10, false, false);
    assert_eq!(trainer, EpisodeTransition { steps: 0, terminated: false, truncated: true, done: true, reset: false });
}

#[test]
fn step_counter_saturates() {
    let t = episode_transition(u32::MAX, u32::MAX, false, true);
    assert!(t.truncated);
    let t = episode_transition(u32::MAX - 1, 0, false, true);
    assert!(t.truncated);
}

#[test]
fn defaults_match_the_startup_configuration() {
    let batch = SpawnEnvBatch::default();
    assert_eq!(batch.count, 8);
    assert!(!batch.interpolate);
    assert!(EpisodeResetPolicy::default().reset_on_truncate);
    assert_eq!(SimTick::default(), SimTick(0));
}

#[test]
fn resize_gives_fresh_buffers() {
    let mut buffers: RlBuffers<f32> = RlBuffers::default();
    buffers.resize(3, 4, 2, 0, 0.0);
    assert_eq!(buffers.observations, vec![vec![0.0; 4]; 3]);
    assert_eq!(buffers.actions, vec![vec![0.0; 2]; 3]);
    assert_eq!(buffers.rewards, vec![0.0; 3]);
    assert_eq!(buffers.episode_steps, vec![0; 3]);
    assert_eq!(buffers.episode_done, vec![false; 3]);
    assert_eq!(buffers.episode_horizon, 1);
    buffers.resize(1, 1, 1, 500, 0.0);
    assert_eq!(buffers.episode_horizon, 500);
}

#[test]
fn advance_episode_records_transition_and_clears_actions_on_done() {
    let mut buffers: RlBuffers<f32> = RlBuffers::default();
    buffers.resize(2, 1, 2, 3, 0.0);
    buffers.actions[1] = vec![0.5, -0.5];
    let policy = EpisodeResetPolicy { reset_on_truncate: false };
    assert!(!buffers.advance_episode(1, false, &policy, 0.0));
    assert_eq!(buffers.episode_steps, vec![0, 1]);
    assert_eq!(buffers.actions[1], vec![0.5, -0.5]);
    assert!(!buffers.advance_episode(1, false, &policy, 0.0));
    assert!(!buffers.advance_episode(1, false, &policy, 0.0));
    assert_eq!(buffers.episode_steps, vec![0, 0]);
    assert_eq!(buffers.episode_truncated, vec![false, true]);
    assert_eq!(buffers.episode_done, vec![false, true]);
    assert_eq!(buffers.actions[1], vec![0.0, 0.0]);
    assert!(buffers.advance_episode(0, true, &policy, 0.0));
    assert_eq!(buffers.episode_terminated, vec![true, false]);
}

#[test]
fn clear_episode_counters_keeps_data() {
    let mut buffers: RlBuffers<f32> = RlBuffers::default();
    buffers.resize(2, 1, 1, 10, 0.0);
    buffers.rewards[0] = 2.5;
    buffers.episode_steps[1] = 4;
    buffers.episode_done[1] = true;
    buffers.clear_episode_counters();
    assert_eq!(buffers.rewards, vec![2.5, 0.0]);
    assert_eq!(buffers.episode_steps, vec![0, 0]);
    assert_eq!(buffers.episode_done, vec![false, false]);
}

#[test]
fn buffered_action_reads_in_range_entries_only() {
    let mut buffers: RlBuffers<f32> = RlBuffers::default();
    buffers.resize(2, 1, 2, 10, 0.0);
    buffers.actions[1][0] = 0.25;
    assert_eq!(buffers.buffered_action(EnvId(1), 0), Some(0.25));
    assert_eq!(buffers.buffered_action(EnvId(1), 2), None);
    assert_eq!(buffers.buffered_action(EnvId(5), 0), None);
}

#[test]
fn filled_table_and_flatten_rows_agree() {
    let table = filled_table(2, 3, 1u8);
    assert_eq!(table, vec![vec![1, 1, 1], vec![1, 1, 1]]);
    assert_eq!(flatten_rows(&vec![vec![1, 2], vec![3], vec![]]), vec![1, 2, 3]);
}

#[test]
fn copy_flat_rows_splits_by_width() {
    let mut rows = vec![vec![0, 0], vec![0, 0], vec![9, 9]];
    copy_flat_rows(&mut rows, &vec![1, 2, 3, 4, 5], 2, Some(7));
    assert_eq!(rows, vec![vec![1, 2], vec![3, 4], vec![7, 7]]);
    let mut rows = vec![vec![0, 0], vec![9, 9]];
    copy_flat_rows(&mut rows, &vec![1, 2], 2, None);
    assert_eq!(rows, vec![vec![1, 2], vec![9, 9]]);
}

#[test]
fn sim_tick_counts_and_saturates() {
    let mut tick = SimTick(5);
    tick.bump();
    assert_eq!(tick, SimTick(6));
    let mut last = SimTick(u64::MAX);
    last.bump();
    assert_eq!(last, SimTick(u64::MAX));
}

#[test]
fn headless_run_stops_at_max_ticks() {
    assert!(!reached_max_ticks(SimTick(9), Some(10)));
    assert!(reached_max_ticks(SimTick(10), Some(10)));
    assert!(!reached_max_ticks(SimTick(1_000_000), None));
}

#[test]
fn viewport_grid_is_the_smallest_square_that_fits() {
    assert_eq!(viewport_grid(0), (1, 1));
    assert_eq!(viewport_grid(1), (1, 1));
    assert_eq!(viewport_grid(2), (2, 1));
    assert_eq!(viewport_grid(4), (2, 2));
    assert_eq!(viewport_grid(5), (3, 2));
    assert_eq!(viewport_grid(10), (4, 3));
    assert_eq!(viewport_grid(64), (8, 8));
    assert_eq!(viewport_grid(1_000_001), (1001, 1000));
}

#[test]
fn viewports_fill_the_grid_row_by_row() {
    assert_eq!(viewport_layout(4, 800, 600, 3), Some(ViewportCell { x: 400, y: 300, width: 400, height: 300 }));
    assert_eq!(viewport_layout(5, 900, 600, 4), Some(ViewportCell { x: 300, y: 300, width: 300, height: 300 }));
    assert_eq!(viewport_layout(1, 1280, 720, 0), Some(ViewportCell { x: 0, y: 0, width: 1280, height: 720 }));
}

#[test]
fn viewports_beyond_the_views_are_none() {
    assert_eq!(viewport_layout(4, 800, 600, 4), None);
    assert_eq!(viewport_layout(0, 800, 600, 0), None);
}

#[test]
fn viewports_never_overlap_and_stay_in_the_window() {
    for count in 1..=12usize {
        let cells: Vec<ViewportCell> = (0..count).map(|slot| viewport_layout(count, 1000, 700, slot).unwrap()).collect();
        for a in &cells {
            assert!(a.x + a.width <= 1000 && a.y + a.height <= 700);
        }
        for i in 0..count {
            for j in (i + 1)..count {
                let (a, b) = (cells[i], cells[j]);
                let apart = a.x + a.width <= b.x || b.x + b.width <= a.x || a.y + a.height <= b.y || b.y + b.height <= a.y;
                assert!(apart);
            }
        }
    }
}

#[test]
fn viewer_env_count_is_clamped() {
    assert_eq!(viewer_env_count(0), 1);
    assert_eq!(viewer_env_count(4), 4);
    assert_eq!(viewer_env_count(200), MAX_VIEW_COUNT);
    assert_eq!(DEFAULT_ENV_COUNT, 4);
}

#[test]
fn env_count_changes_respawn_only_when_final_and_different() {
    assert_eq!(env_count_change(true, 4, 6), Some(6));
    assert_eq!(env_count_change(false, 4, 6), None);
    assert_eq!(env_count_change(true, 6, 6), None);
}

#[test]
fn camera_plan_keeps_shown_slots_and_opens_missing_ones() {
    let (keep, open) = camera_plan(&vec![0, 3, 5], 4);
    assert_eq!(keep, vec![true, true, false]);
    assert_eq!(open, vec![1, 2]);
    let (keep, open) = camera_plan(&vec![], 3);
    assert!(keep.is_empty());
    assert_eq!(open, vec![0, 1, 2]);
}

#[test]
fn headless_progress_is_reported_every_sixty_ticks() {
    assert!(!progress_due(SimTick(0), true));
    assert!(!progress_due(SimTick(59), true));
    assert!(progress_due(SimTick(60), true));
    assert!(!progress_due(SimTick(60), false));
    assert!(progress_due(SimTick(600), true));
}

#[test]
fn headless_defaults_fill_missing_arguments() {
    assert_eq!(headless_tick_limit(None), Some(600));
    assert_eq!(headless_tick_limit(Some(42)), Some(42));
    assert_eq!(headless_env_count(None), 16);
    assert_eq!(headless_env_count(Some(3)), 3);
}

#[test]
fn advance_episode_without_action_row_only_updates_flags() {
    let mut buffers: RlBuffers<f32> = RlBuffers::default();
    buffers.resize(2, 1, 1, 1, 0.0);
    buffers.actions.truncate(1);
    let policy = EpisodeResetPolicy { reset_on_truncate: true };
    assert!(buffers.advance_episode(1, false, &policy, 0.0));
    assert_eq!(buffers.episode_truncated, vec![false, true]);
    assert_eq!(buffers.actions.len(), 1);
}
