//! Verified core of a parallel physics-simulation and reinforcement-learning
//! toolkit: environment isolation, creature skeletons, rollout storage,
//! episode bookkeeping, the PPO schedule, checkpoint naming and validation,
//! the viewer layout and the morphology studio's decisions.
pub mod articulation;
pub mod checkpoint;
pub mod env;
pub mod episodes;
pub mod ground;
pub mod paths;
pub mod plugin;
pub mod policy_config;
pub mod ppo;
pub mod rl;
pub mod rollout;
pub mod studio;
pub mod text;
pub mod training;
pub mod viewer;

pub use articulation::{articulation_root_name, CreatureSkeleton, JointKindTag, JointLink};
