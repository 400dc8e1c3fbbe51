//! Actor-critic architecture settings and checkpoint metadata.
//!
//! The type parameter `F` is the model's scalar type (32-bit floats in the
//! trainer); the library carries such values and never computes with them.
use vstd::prelude::*;

verus! {

/// A copy of a list of dimensions.
pub fn copy_dims(dims: &Vec<usize>) -> (copy: Vec<usize>)
    ensures
        copy@ == dims@,
{
    let mut copy: Vec<usize> = Vec::new();
    let mut i: usize = 0;
    while i < dims.len()
        invariant
            i <= dims@.len(),
            copy@ == dims@.subrange(0, i as int),
        decreases dims@.len() - i,
    {
        copy.push(dims[i]);
        i = i + 1;
        assert(copy@ =~= dims@.subrange(0, i as int));
    }
    assert(dims@.subrange(0, dims@.len() as int) =~= dims@);
    copy
}

/// Tunable actor-critic architecture (without the environment's dimensions).
///
/// `hidden_dims` is the width sequence of the MLP backbone; empty means the
/// heads read the raw observations.
#[derive(Clone, Debug)]
pub struct ActorCriticArchConfig<F> {
    pub hidden_dims: Vec<usize>,
    pub initial_log_std: F,
}

/// Full actor-critic configuration: environment dimensions and architecture.
#[derive(Clone, Debug)]
pub struct ActorCriticConfig<F> {
    pub observation_dim: usize,
    pub action_dim: usize,
    pub hidden_dims: Vec<usize>,
    pub initial_log_std: F,
}

/// Input and output widths of every linear layer of an actor-critic model.
#[derive(Debug)]
pub struct LayerShapes {
    /// Backbone layers, in order: `(input width, output width)`.
    pub backbone: Vec<(usize, usize)>,
    /// Actor head producing the action means.
    pub actor_mean: (usize, usize),
    /// Critic head producing the value.
    pub critic: (usize, usize),
    /// Length of the learned log standard deviation.
    pub log_std_len: usize,
}

impl<F: Copy> ActorCriticConfig<F> {
    /// Width of the features feeding the actor and critic heads: the last
    /// hidden width, or the observation width when there is no hidden layer.
    pub open spec fn spec_feature_dim(&self) -> usize {
        if self.hidden_dims@.len() == 0 {
            self.observation_dim
        } else {
            self.hidden_dims@.last()
        }
    }

    /// Width of the features feeding the actor and critic heads.
    pub fn feature_dim(&self) -> (dim: usize)
        ensures
            dim == self.spec_feature_dim(),
    {
        if self.hidden_dims.len() == 0 {
            self.observation_dim
        } else {
            self.hidden_dims[self.hidden_dims.len() - 1]
        }
    }

    /// Layer widths of the model this configuration builds: backbone layer `k`
    /// maps the previous width (the observation width for the first) to
    /// `hidden_dims[k]`; both heads read the feature width; the actor emits
    /// one mean per action and the critic one value.
    pub fn layer_shapes(&self) -> (shapes: LayerShapes)
        ensures
            shapes.backbone@.len() == self.hidden_dims@.len(),
            forall|k: int|
                0 <= k < shapes.backbone@.len() ==> (#[trigger] shapes.backbone@[k]).0 == (if k == 0 {
                    self.observation_dim
                } else {
                    self.hidden_dims@[k - 1]
                }) && shapes.backbone@[k].1 == self.hidden_dims@[k],
            shapes.actor_mean == (self.spec_feature_dim(), self.action_dim),
            shapes.critic == (self.spec_feature_dim(), 1usize),
            shapes.log_std_len == self.action_dim,
            shapes.backbone@.len() > 0 ==> shapes.actor_mean.0 == shapes.backbone@.last().1 && shapes.critic.0
                == shapes.backbone@.last().1,
            shapes.backbone@.len() == 0 ==> shapes.actor_mean.0 == self.observation_dim && shapes.critic.0
                == self.observation_dim,
    {
        let mut backbone: Vec<(usize, usize)> = Vec::new();
        let mut input_dim = self.observation_dim;
        let mut k: usize = 0;
        while k < self.hidden_dims.len()
            invariant
                k <= self.hidden_dims@.len(),
                backbone@.len() == k,
                input_dim == if k == 0 { self.observation_dim } else { self.hidden_dims@[k - 1] },
                forall|x: int|
                    0 <= x < k ==> (#[trigger] backbone@[x]).0 == (if x == 0 {
                        self.observation_dim
                    } else {
                        self.hidden_dims@[x - 1]
                    }) && backbone@[x].1 == self.hidden_dims@[x],
            decreases self.hidden_dims@.len() - k,
        {
            let output_dim = self.hidden_dims[k];
            backbone.push((input_dim, output_dim));
            input_dim = output_dim;
            k = k + 1;
        }
        let feature_dim = self.feature_dim();
        LayerShapes {
            backbone,
            actor_mean: (feature_dim, self.action_dim),
            critic: (feature_dim, 1),
            log_std_len: self.action_dim,
        }
    }

    /// Configuration for an environment's dimensions and an architecture.
    pub fn from_arch(observation_dim: usize, action_dim: usize, arch: &ActorCriticArchConfig<F>) -> (config: Self)
        ensures
            config.observation_dim == observation_dim,
            config.action_dim == action_dim,
            config.hidden_dims@ == arch.hidden_dims@,
            config.initial_log_std == arch.initial_log_std,
    {
        ActorCriticConfig {
            observation_dim,
            action_dim,
            hidden_dims: copy_dims(&arch.hidden_dims),
            initial_log_std: arch.initial_log_std,
        }
    }
}

/// Sidecar metadata stored next to policy weights.
#[derive(Clone, Debug, PartialEq)]
pub struct PolicyCheckpointMeta<F> {
    pub creature_id: String,
    pub observation_dim: usize,
    pub action_dim: usize,
    pub hidden_dims: Vec<usize>,
    pub update_index: usize,
    /// Mean per-step reward for each PPO update in this training run.
    pub mean_rewards: Vec<F>,
    /// Mean episode length (steps) for each PPO update in this training run.
    pub mean_episode_lengths: Vec<F>,
}

impl<F: Copy> PolicyCheckpointMeta<F> {
    /// Metadata describing a model built from `config`.
    pub fn from_config(
        creature_id: String,
        config: &ActorCriticConfig<F>,
        update_index: usize,
        mean_rewards: Vec<F>,
        mean_episode_lengths: Vec<F>,
    ) -> (meta: Self)
        ensures
            meta.creature_id@ == creature_id@,
            meta.observation_dim == config.observation_dim,
            meta.action_dim == config.action_dim,
            meta.hidden_dims@ == config.hidden_dims@,
            meta.update_index == update_index,
            meta.mean_rewards@ == mean_rewards@,
            meta.mean_episode_lengths@ == mean_episode_lengths@,
    {
        PolicyCheckpointMeta {
            creature_id,
            observation_dim: config.observation_dim,
            action_dim: config.action_dim,
            hidden_dims: copy_dims(&config.hidden_dims),
            update_index,
            mean_rewards,
            mean_episode_lengths,
        }
    }

    /// The configuration these weights were trained with; the initial log
    /// standard deviation, which the metadata does not record, is `initial_log_std`.
    pub fn to_config(&self, initial_log_std: F) -> (config: ActorCriticConfig<F>)
        ensures
            config.observation_dim == self.observation_dim,
            config.action_dim == self.action_dim,
            config.hidden_dims@ == self.hidden_dims@,
            config.initial_log_std == initial_log_std,
    {
        ActorCriticConfig {
            observation_dim: self.observation_dim,
            action_dim: self.action_dim,
            hidden_dims: copy_dims(&self.hidden_dims),
            initial_log_std,
        }
    }
}

/// The heads read what the backbone produces: with hidden layers, the
/// feature width is the last hidden width (the output of the last backbone
/// layer); without any, it is the observation width.
pub proof fn lemma_heads_read_backbone_output<F: Copy>(config: ActorCriticConfig<F>)
    ensures
        config.hidden_dims@.len() > 0 ==> config.spec_feature_dim() == config.hidden_dims@[config.hidden_dims@.len()
            - 1],
        config.hidden_dims@.len() == 0 ==> config.spec_feature_dim() == config.observation_dim,
{
}

} // verus!
