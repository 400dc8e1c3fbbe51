use bevy_rl::checkpoint::{
    checkpoint_display_name, checkpoint_paths, checkpoint_root, checkpoint_root_in, creature_checkpoint_dir,
    is_checkpoint_extension, latest_checkpoint_stem, meta_file_path, optimizer_file_name, optimizer_file_path,
    optimizer_stem_from_weights_stem, resolve_checkpoint_stem, same_dims, step_checkpoint_stem, step_stem_name,
    validate_meta, weights_file_path, CheckpointError, creature_checkpoint_dir_in, latest_checkpoint_stem_in,
    save_paths, save_paths_in, step_checkpoint_stem_in,
};
use bevy_rl::policy_config::{ActorCriticArchConfig, ActorCriticConfig, PolicyCheckpointMeta};

fn dog_config() -> ActorCriticConfig<f32> {
    ActorCriticConfig { observation_dim: 42, action_dim: 8, hidden_dims: vec![512, 512, 512], initial_log_std: -0.5 }
}

fn dog_meta() -> PolicyCheckpointMeta<f32> {
    PolicyCheckpointMeta::from_config("dog".to_string(), &dog_config(), 49, vec![0.5, 0.75], vec![120.0, 200.0])
}

#[test]
fn checkpoint_root_joins_app_and_checkpoint_directories() {
    let root = checkpoint_root_in(Some("/data".to_string())).unwrap();
    assert_eq!(root, "/data/bevy-rl/checkpoints");
}

#[test]
fn checkpoint_root_without_data_directory_is_an_error() {
    assert!(matches!(checkpoint_root_in(None), Err(CheckpointError::DataDirUnavailable)));
}

#[test]
fn checkpoint_root_on_this_machine_ends_with_app_directories() {
    match checkpoint_root() {
        Ok(root) => assert!(root.ends_with("bevy-rl/checkpoints")),
        Err(error) => assert!(matches!(error, CheckpointError::DataDirUnavailable)),
    }
}

#[test]
fn creature_directories_and_stems_sit_under_the_root() {
    if let Ok(root) = checkpoint_root() {
        assert_eq!(creature_checkpoint_dir("dog").unwrap(), format!("{root}/dog"));
        assert_eq!(latest_checkpoint_stem("dog").unwrap(), format!("{root}/dog/latest"));
        assert_eq!(step_checkpoint_stem("dog", 42).unwrap(), format!("{root}/dog/step_000042"));
    }
}

#[test]
fn step_stem_names_are_zero_padded_to_six_digits() {
    assert_eq!(step_stem_name(0), "step_000000");
    assert_eq!(step_stem_name(42), "step_000042");
    assert_eq!(step_stem_name(49), "step_000049");
    assert_eq!(step_stem_name(123456), "step_123456");
    assert_eq!(step_stem_name(1234567), "step_1234567");
}

#[test]
fn weights_and_meta_files_take_their_extensions() {
    assert_eq!(weights_file_path("runs/dog/latest"), "runs/dog/latest.mpk");
    assert_eq!(meta_file_path("runs/dog/latest"), "runs/dog/latest.json");
    assert_eq!(meta_file_path("runs/dog/step_000042"), "runs/dog/step_000042.json");
}

#[test]
fn checkpoint_paths_name_latest_and_step_pairs() {
    let paths = checkpoint_paths("ckpt/dog", 7);
    assert_eq!(paths.directory, "ckpt/dog");
    assert_eq!(paths.latest_weights_stem, "ckpt/dog/latest");
    assert_eq!(paths.latest_meta_path, "ckpt/dog/latest.json");
    assert_eq!(paths.step_weights_stem, "ckpt/dog/step_000007");
    assert_eq!(paths.step_meta_path, "ckpt/dog/step_000007.json");
}

#[test]
fn step_paths_differ_for_different_updates() {
    let a = checkpoint_paths("ckpt/dog", 7);
    let b = checkpoint_paths("ckpt/dog", 8);
    assert_ne!(a.step_weights_stem, b.step_weights_stem);
    assert_eq!(a.latest_weights_stem, b.latest_weights_stem);
}

#[test]
fn resolve_directory_uses_latest() {
    assert_eq!(resolve_checkpoint_stem("runs/dog", true), "runs/dog/latest");
}

#[test]
fn resolve_strips_weight_and_meta_extensions() {
    assert_eq!(resolve_checkpoint_stem("runs/dog/step_000042.mpk", false), "runs/dog/step_000042");
    assert_eq!(resolve_checkpoint_stem("runs/dog/latest.json", false), "runs/dog/latest");
}

#[test]
fn resolve_keeps_stems_and_other_files() {
    assert_eq!(resolve_checkpoint_stem("runs/dog/latest", false), "runs/dog/latest");
    assert_eq!(resolve_checkpoint_stem("runs/dog/notes.txt", false), "runs/dog/notes.txt");
    assert_eq!(resolve_checkpoint_stem("runs/dog/.mpk", false), "runs/dog/.mpk");
}

#[test]
fn display_name_is_the_stem_file_name() {
    assert_eq!(checkpoint_display_name("runs/dog/step_000042.mpk", false), "step_000042");
    assert_eq!(checkpoint_display_name("runs/dog", true), "latest");
    assert_eq!(checkpoint_display_name("policy", false), "policy");
}

#[test]
fn checkpoint_extensions_are_mpk_and_json() {
    assert!(is_checkpoint_extension(&Some("mpk".to_string())));
    assert!(is_checkpoint_extension(&Some("json".to_string())));
    assert!(!is_checkpoint_extension(&Some("txt".to_string())));
    assert!(!is_checkpoint_extension(&None));
}

#[test]
fn optimizer_stems_follow_weight_stems() {
    assert_eq!(optimizer_stem_from_weights_stem("latest"), "latest_optim");
    assert_eq!(optimizer_stem_from_weights_stem("step_000049"), "step_000049_optim");
    assert_eq!(optimizer_stem_from_weights_stem("ckpt/dog/latest"), "ckpt/dog/latest_optim");
}

#[test]
fn optimizer_file_name_falls_back_to_checkpoint() {
    assert_eq!(optimizer_file_name(&None), "checkpoint_optim");
    assert_eq!(optimizer_file_name(&Some("latest".to_string())), "latest_optim");
}

#[test]
fn optimizer_file_is_an_mpk_file() {
    assert_eq!(optimizer_file_path("ckpt/dog/latest_optim"), "ckpt/dog/latest_optim.mpk");
}

#[test]
fn validate_meta_accepts_matching_checkpoint() {
    assert!(validate_meta(&dog_meta(), "dog", &dog_config()).is_ok());
}

#[test]
fn validate_meta_reports_creature_mismatch_first() {
    let mut meta = dog_meta();
    meta.observation_dim = 1;
    match validate_meta(&meta, "cat", &dog_config()) {
        Err(CheckpointError::CreatureMismatch { expected, found }) => {
            assert_eq!(expected, "cat");
            assert_eq!(found, "dog");
        }
        other => panic!("unexpected result {other:?}"),
    }
}

#[test]
fn validate_meta_reports_observation_dim_mismatch() {
    let mut meta = dog_meta();
    meta.observation_dim = 40;
    meta.action_dim = 3;
    match validate_meta(&meta, "dog", &dog_config()) {
        Err(CheckpointError::DimMismatch { field, expected, found }) => {
            assert_eq!(field, "observation_dim");
            assert_eq!(expected, 42);
            assert_eq!(found, 40);
        }
        other => panic!("unexpected result {other:?}"),
    }
}

#[test]
fn validate_meta_reports_action_dim_mismatch() {
    let mut meta = dog_meta();
    meta.action_dim = 3;
    match validate_meta(&meta, "dog", &dog_config()) {
        Err(CheckpointError::DimMismatch { field, expected, found }) => {
            assert_eq!(field, "action_dim");
            assert_eq!(expected, 8);
            assert_eq!(found, 3);
        }
        other => panic!("unexpected result {other:?}"),
    }
}

#[test]
fn validate_meta_reports_hidden_dims_as_lists() {
    let mut meta = dog_meta();
    meta.hidden_dims = vec![256, 256];
    match validate_meta(&meta, "dog", &dog_config()) {
        Err(CheckpointError::ArchMismatch { field, expected, found }) => {
            assert_eq!(field, "hidden_dims");
            assert_eq!(expected, "[512, 512, 512]");
            assert_eq!(found, "[256, 256]");
        }
        other => panic!("unexpected result {other:?}"),
    }
}

#[test]
fn validate_meta_renders_empty_hidden_dims() {
    let mut meta = dog_meta();
    meta.hidden_dims = vec![];
    match validate_meta(&meta, "dog", &dog_config()) {
        Err(CheckpointError::ArchMismatch { found, .. }) => assert_eq!(found, "[]"),
        other => panic!("unexpected result {other:?}"),
    }
}

#[test]
fn same_dims_compares_whole_lists() {
    assert!(same_dims(&vec![1, 2, 3], &vec![1, 2, 3]));
    assert!(!same_dims(&vec![1, 2, 3], &vec![1, 2]));
    assert!(!same_dims(&vec![1, 2, 3], &vec![1, 2, 4]));
    assert!(same_dims(&vec![], &vec![]));
}

#[test]
fn meta_round_trips_through_config() {
    let meta = dog_meta();
    assert_eq!(meta.creature_id, "dog");
    assert_eq!(meta.update_index, 49);
    assert_eq!(meta.mean_rewards, vec![0.5, 0.75]);
    let config = meta.to_config(-0.5);
    assert_eq!(config.observation_dim, 42);
    assert_eq!(config.action_dim, 8);
    assert_eq!(config.hidden_dims, vec![512, 512, 512]);
    assert!(validate_meta(&meta, "dog", &config).is_ok());
}

#[test]
fn config_from_arch_keeps_architecture() {
    let arch = ActorCriticArchConfig { hidden_dims: vec![64, 32], initial_log_std: -1.0f32 };
    let config = ActorCriticConfig::from_arch(10, 4, &arch);
    assert_eq!(config.observation_dim, 10);
    assert_eq!(config.action_dim, 4);
    assert_eq!(config.hidden_dims, vec![64, 32]);
    assert_eq!(config.initial_log_std, -1.0);
    assert_eq!(config.feature_dim(), 32);
}

#[test]
fn feature_dim_without_hidden_layers_is_observation_dim() {
    let config = ActorCriticConfig { observation_dim: 10, action_dim: 4, hidden_dims: vec![], initial_log_std: 0.0f32 };
    assert_eq!(config.feature_dim(), 10);
    let shapes = config.layer_shapes();
    assert!(shapes.backbone.is_empty());
    assert_eq!(shapes.actor_mean, (10, 4));
    assert_eq!(shapes.critic, (10, 1));
}

#[test]
fn layer_shapes_chain_hidden_widths() {
    let shapes = dog_config().layer_shapes();
    assert_eq!(shapes.backbone, vec![(42, 512), (512, 512), (512, 512)]);
    assert_eq!(shapes.actor_mean, (512, 8));
    assert_eq!(shapes.critic, (512, 1));
    assert_eq!(shapes.log_std_len, 8);
}

#[test]
fn creature_paths_follow_the_data_directory() {
    let data = Some("/home/u/.local/share".to_string());
    assert_eq!(creature_checkpoint_dir_in(data.clone(), "dog").unwrap(), "/home/u/.local/share/bevy-rl/checkpoints/dog");
    assert_eq!(
        latest_checkpoint_stem_in(data.clone(), "dog").unwrap(),
        "/home/u/.local/share/bevy-rl/checkpoints/dog/latest"
    );
    assert_eq!(step_checkpoint_stem_in(Some("/data".to_string()), "dog", 42).unwrap(), "/data/bevy-rl/checkpoints/dog/step_000042");
    assert_eq!(
        step_checkpoint_stem_in(Some("/data".to_string()), "dog", 1234567).unwrap(),
        "/data/bevy-rl/checkpoints/dog/step_1234567"
    );
}

#[test]
fn creature_paths_without_data_directory_fail() {
    assert!(matches!(creature_checkpoint_dir_in(None, "dog"), Err(CheckpointError::DataDirUnavailable)));
    assert!(matches!(latest_checkpoint_stem_in(None, "dog"), Err(CheckpointError::DataDirUnavailable)));
    assert!(matches!(step_checkpoint_stem_in(None, "dog", 3), Err(CheckpointError::DataDirUnavailable)));
    assert!(matches!(save_paths_in(None, "dog", 3), Err(CheckpointError::DataDirUnavailable)));
}

#[test]
fn save_paths_use_the_creature_directory() {
    let paths = save_paths_in(Some("/data".to_string()), "dog", 49).unwrap();
    assert_eq!(paths.directory, "/data/bevy-rl/checkpoints/dog");
    assert_eq!(paths.latest_weights_stem, "/data/bevy-rl/checkpoints/dog/latest");
    assert_eq!(paths.latest_meta_path, "/data/bevy-rl/checkpoints/dog/latest.json");
    assert_eq!(paths.step_weights_stem, "/data/bevy-rl/checkpoints/dog/step_000049");
    assert_eq!(paths.step_meta_path, "/data/bevy-rl/checkpoints/dog/step_000049.json");
}

#[test]
fn save_paths_on_this_machine_match_the_stems() {
    if let Ok(paths) = save_paths("dog", 7) {
        assert_eq!(paths.directory, creature_checkpoint_dir("dog").unwrap());
        assert_eq!(paths.latest_weights_stem, latest_checkpoint_stem("dog").unwrap());
        assert_eq!(paths.step_weights_stem, step_checkpoint_stem("dog", 7).unwrap());
    }
}

#[test]
fn saved_files_resolve_back_to_their_stem() {
    for stem in ["ckpt/dog/latest", "ckpt/dog/step_000042", "/data/.hidden", "policy"] {
        assert_eq!(resolve_checkpoint_stem(&weights_file_path(stem), false), stem);
        assert_eq!(resolve_checkpoint_stem(&meta_file_path(stem), false), stem);
    }
}

#[test]
fn optimizer_record_is_not_the_weight_file() {
    for stem in ["ckpt/dog/latest", "ckpt/dog/step_000042"] {
        let optim = optimizer_file_path(&optimizer_stem_from_weights_stem(stem));
        assert_ne!(optim, weights_file_path(stem));
        assert_eq!(optim, format!("{stem}_optim.mpk"));
    }
}

#[test]
fn step_and_latest_stems_never_collide() {
    let a = checkpoint_paths("/data/dog", 1);
    let b = checkpoint_paths("/data/dog", 2);
    assert_ne!(a.step_weights_stem, b.step_weights_stem);
    assert_ne!(a.step_weights_stem, a.latest_weights_stem);
}
