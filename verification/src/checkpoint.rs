//! Where policy checkpoints live and which ones may be loaded.
//!
//! Checkpoints are kept under the platform data directory, in
//! `<data>/bevy-rl/checkpoints/<creature id>/`. A save writes a `latest` pair
//! and a step-numbered pair (`step_000042`): weights (`.mpk`) next to JSON
//! metadata (`.json`), and optimizer moments under the weights stem with an
//! `_optim` suffix.
use vstd::prelude::*;
use crate::paths::{
    ends_with, ends_with_extension, is_bare_stem, is_plain_name, is_simple_extension, without_extension,
    extension, extension_of_file_name, file_name, joined_path, path_file_name, path_join, path_with_extension,
    path_with_file_name, with_extension, with_file_name,
};
use crate::policy_config::{ActorCriticConfig, PolicyCheckpointMeta};
use crate::text::{is_digit_char, lemma_zero_padded_digits, list_chars, list_text, string_from_chars, zero_padded, zero_padded_chars, lemma_zero_padded_injective};

verus! {

/// Directory name of this toolkit under the platform data directory.
pub const APP_NAME: &'static str = "bevy-rl";

/// Directory holding the per-creature checkpoint directories.
pub const CHECKPOINTS_DIR: &'static str = "checkpoints";

/// Extension of weight files.
pub const WEIGHTS_EXTENSION: &'static str = "mpk";

/// Extension of metadata files.
pub const META_EXTENSION: &'static str = "json";

/// Stem of the most recent checkpoint.
pub const LATEST_STEM: &'static str = "latest";

/// Suffix appended to a weights stem to name its optimizer record.
pub const OPTIM_SUFFIX: &'static str = "_optim";

/// File name used for optimizer records when a weights stem has none.
pub const FALLBACK_FILE_NAME: &'static str = "checkpoint";

/// Why a checkpoint cannot be located or does not fit the model it is loaded into.
#[derive(Debug)]
#[allow(inconsistent_fields)]
pub enum CheckpointError {
    /// The platform has no data directory.
    DataDirUnavailable,
    /// An environment dimension differs from the expected one.
    DimMismatch { field: &'static str, expected: usize, found: usize },
    /// The architecture differs from the expected one (rendered as text).
    ArchMismatch { field: &'static str, expected: String, found: String },
    /// The checkpoint belongs to another creature.
    CreatureMismatch { expected: String, found: String },
    /// A file of the checkpoint does not exist.
    MissingFile(String),
}

/// `dirs::data_dir`: the user's data directory. It comes from the
/// environment (`$XDG_DATA_HOME` or `$HOME/.local/share` on Linux, the
/// roaming application data folder on Windows, Application Support on macOS)
/// and may be absent, so nothing is claimed of it. A directory that is not
/// valid UTF-8 is converted lossily.
#[verifier::external_body]
fn data_dir() -> (dir: Option<String>) {
    match dirs::data_dir() {
        Some(dir) => Some(dir.to_string_lossy().into_owned()),
        None => None,
    }
}

/// The checkpoint root under data directory `data_dir`.
pub open spec fn checkpoint_root_path(data_dir: Seq<char>) -> Seq<char> {
    joined_path(joined_path(data_dir, APP_NAME@), CHECKPOINTS_DIR@)
}

/// The checkpoint root for an outcome of the data-directory lookup.
pub fn checkpoint_root_in(data_dir: Option<String>) -> (root: Result<String, CheckpointError>)
    ensures
        match data_dir {
            None => root matches Err(CheckpointError::DataDirUnavailable),
            Some(dir) => root matches Ok(path) && path@ == checkpoint_root_path(dir@),
        },
{
    match data_dir {
        None => Err(CheckpointError::DataDirUnavailable),
        Some(dir) => {
            let app = path_join(dir.as_str(), APP_NAME);
            Ok(path_join(app.as_str(), CHECKPOINTS_DIR))
        },
    }
}

/// `<data>/bevy-rl/checkpoints` under the platform data directory.
pub fn checkpoint_root() -> (root: Result<String, CheckpointError>)
    ensures
        exists|data: Option<String>| #[trigger] root_outcome(data, root),
{
    let data = data_dir();
    let root = checkpoint_root_in(data);
    assert(root_outcome(data, root));
    root
}

/// `root` is what `checkpoint_root_in` gives for the lookup outcome `data`.
pub open spec fn root_outcome(data: Option<String>, root: Result<String, CheckpointError>) -> bool {
    match data {
        None => root matches Err(CheckpointError::DataDirUnavailable),
        Some(dir) => root matches Ok(path) && path@ == checkpoint_root_path(dir@),
    }
}

/// Checkpoint directory of `creature_id` under data directory `data_dir`.
pub open spec fn creature_dir_path(data_dir: Seq<char>, creature_id: Seq<char>) -> Seq<char> {
    joined_path(checkpoint_root_path(data_dir), creature_id)
}

/// Weights stem of `creature_id`'s most recent checkpoint under data directory `data_dir`.
pub open spec fn latest_stem_path(data_dir: Seq<char>, creature_id: Seq<char>) -> Seq<char> {
    joined_path(creature_dir_path(data_dir, creature_id), LATEST_STEM@)
}

/// Weights stem of `creature_id`'s checkpoint after update `update_index` under data directory `data_dir`.
pub open spec fn step_stem_path(data_dir: Seq<char>, creature_id: Seq<char>, update_index: nat) -> Seq<char> {
    joined_path(creature_dir_path(data_dir, creature_id), step_stem_text(update_index))
}

/// `result` is the path `path` when the lookup found a directory, and the
/// missing-directory error when it found none.
pub open spec fn path_outcome(data: Option<String>, result: Result<String, CheckpointError>, path: Seq<char>) -> bool {
    match data {
        None => result matches Err(CheckpointError::DataDirUnavailable),
        Some(_) => result matches Ok(p) && p@ == path,
    }
}

/// The directory found by the lookup (empty when there is none).
pub open spec fn found_dir(data: Option<String>) -> Seq<char> {
    match data {
        Some(dir) => dir@,
        None => Seq::empty(),
    }
}

/// `dir` is `creature_checkpoint_dir_in(data, creature_id)`.
pub open spec fn creature_dir_outcome(data: Option<String>, creature_id: Seq<char>, dir: Result<String, CheckpointError>) -> bool {
    path_outcome(data, dir, creature_dir_path(found_dir(data), creature_id))
}

/// `stem` is `latest_checkpoint_stem_in(data, creature_id)`.
pub open spec fn latest_stem_outcome(data: Option<String>, creature_id: Seq<char>, stem: Result<String, CheckpointError>) -> bool {
    path_outcome(data, stem, latest_stem_path(found_dir(data), creature_id))
}

/// `stem` is `step_checkpoint_stem_in(data, creature_id, update_index)`.
pub open spec fn step_stem_outcome(
    data: Option<String>,
    creature_id: Seq<char>,
    update_index: nat,
    stem: Result<String, CheckpointError>,
) -> bool {
    path_outcome(data, stem, step_stem_path(found_dir(data), creature_id, update_index))
}

/// Checkpoint directory of `creature_id` for an outcome of the data-directory lookup.
pub fn creature_checkpoint_dir_in(data_dir: Option<String>, creature_id: &str) -> (dir: Result<String, CheckpointError>)
    ensures
        creature_dir_outcome(data_dir, creature_id@, dir),
{
    let root = checkpoint_root_in(data_dir)?;
    Ok(path_join(root.as_str(), creature_id))
}

/// Weights stem of `creature_id`'s most recent checkpoint for an outcome of the data-directory lookup.
pub fn latest_checkpoint_stem_in(data_dir: Option<String>, creature_id: &str) -> (stem: Result<String, CheckpointError>)
    ensures
        latest_stem_outcome(data_dir, creature_id@, stem),
        stem matches Ok(p) ==> path_file_name(p@) == Some(LATEST_STEM@),
{
    let dir = creature_checkpoint_dir_in(data_dir, creature_id)?;
    proof {
        lemma_latest_name_plain();
    }
    Ok(path_join(dir.as_str(), LATEST_STEM))
}

/// Weights stem of `creature_id`'s checkpoint after update `update_index`,
/// for an outcome of the data-directory lookup.
pub fn step_checkpoint_stem_in(data_dir: Option<String>, creature_id: &str, update_index: usize) -> (stem: Result<
    String,
    CheckpointError,
>)
    ensures
        step_stem_outcome(data_dir, creature_id@, update_index as nat, stem),
        stem matches Ok(p) ==> path_file_name(p@) == Some(step_stem_text(update_index as nat)),
{
    let dir = creature_checkpoint_dir_in(data_dir, creature_id)?;
    let name = step_stem_name(update_index);
    proof {
        lemma_step_name_plain(update_index as nat);
    }
    Ok(path_join(dir.as_str(), name.as_str()))
}

/// Checkpoint directory of `creature_id` under the platform data directory.
pub fn creature_checkpoint_dir(creature_id: &str) -> (dir: Result<String, CheckpointError>)
    ensures
        exists|data: Option<String>| #[trigger] creature_dir_outcome(data, creature_id@, dir),
{
    creature_checkpoint_dir_in(data_dir(), creature_id)
}

/// Weights stem of `creature_id`'s most recent checkpoint under the platform data directory.
pub fn latest_checkpoint_stem(creature_id: &str) -> (stem: Result<String, CheckpointError>)
    ensures
        exists|data: Option<String>| #[trigger] latest_stem_outcome(data, creature_id@, stem),
        stem matches Ok(p) ==> path_file_name(p@) == Some(LATEST_STEM@),
{
    latest_checkpoint_stem_in(data_dir(), creature_id)
}

/// File name of the checkpoint saved after update `update_index`: `step_` and the index, zero-padded to six digits.
pub open spec fn step_stem_text(update_index: nat) -> Seq<char> {
    seq!['s', 't', 'e', 'p', '_'] + zero_padded(update_index, 6)
}

/// File name of the checkpoint saved after update `update_index`, e.g. `step_000042`.
pub fn step_stem_name(update_index: usize) -> (name: String)
    ensures
        name@ == step_stem_text(update_index as nat),
{
    let mut text: Vec<char> = Vec::new();
    text.push('s');
    text.push('t');
    text.push('e');
    text.push('p');
    text.push('_');
    let digits = zero_padded_chars(update_index, 6);
    let mut i: usize = 0;
    let ghost prefix = text@;
    while i < digits.len()
        invariant
            i <= digits@.len(),
            text@ == prefix + digits@.subrange(0, i as int),
        decreases digits@.len() - i,
    {
        text.push(digits[i]);
        i = i + 1;
        assert(text@ =~= prefix + digits@.subrange(0, i as int));
    }
    assert(digits@.subrange(0, digits@.len() as int) =~= digits@);
    assert(text@ =~= step_stem_text(update_index as nat));
    string_from_chars(&text)
}

/// Weights stem of `creature_id`'s checkpoint saved after update `update_index`,
/// under the platform data directory.
pub fn step_checkpoint_stem(creature_id: &str, update_index: usize) -> (stem: Result<String, CheckpointError>)
    ensures
        exists|data: Option<String>| #[trigger] step_stem_outcome(data, creature_id@, update_index as nat, stem),
        stem matches Ok(p) ==> path_file_name(p@) == Some(step_stem_text(update_index as nat)),
{
    step_checkpoint_stem_in(data_dir(), creature_id, update_index)
}

/// `path` is `stem` with extension `extension`; for a stem that ends with its
/// file name and has no extension, that is the stem, `.` and the extension.
pub open spec fn with_extension_of(stem: Seq<char>, extension: Seq<char>, path: Seq<char>) -> bool {
    &&& path == path_with_extension(stem, extension)
    &&& is_bare_stem(stem) ==> {
        &&& path == stem + seq!['.'] + extension
        &&& path_file_name(path) == Some(path_file_name(stem)->0 + seq!['.'] + extension)
    }
}

/// Weight file of a checkpoint stem (`.mpk`).
pub fn weights_file_path(stem: &str) -> (path: String)
    ensures
        with_extension_of(stem@, WEIGHTS_EXTENSION@, path@),
{
    proof {
        reveal_strlit("mpk");
    }
    with_extension(stem, WEIGHTS_EXTENSION)
}

/// Metadata file of a checkpoint stem (`.json`).
pub fn meta_file_path(stem: &str) -> (path: String)
    ensures
        with_extension_of(stem@, META_EXTENSION@, path@),
{
    proof {
        reveal_strlit("json");
    }
    with_extension(stem, META_EXTENSION)
}

/// Paths written for one checkpoint save (weight stems; the recorder adds `.mpk`).
#[derive(Clone, Debug)]
pub struct CheckpointPaths {
    pub directory: String,
    pub latest_weights_stem: String,
    pub latest_meta_path: String,
    pub step_weights_stem: String,
    pub step_meta_path: String,
}

/// The paths a save into `directory` after update `update_index` writes.
pub fn checkpoint_paths(directory: &str, update_index: usize) -> (paths: CheckpointPaths)
    ensures
        paths.directory@ == directory@,
        paths.latest_weights_stem@ == joined_path(directory@, LATEST_STEM@),
        paths.latest_meta_path@ == path_with_extension(joined_path(directory@, LATEST_STEM@), META_EXTENSION@),
        paths.step_weights_stem@ == joined_path(directory@, step_stem_text(update_index as nat)),
        paths.step_meta_path@ == path_with_extension(
            joined_path(directory@, step_stem_text(update_index as nat)),
            META_EXTENSION@,
        ),
        path_file_name(paths.latest_weights_stem@) == Some(LATEST_STEM@),
        path_file_name(paths.step_weights_stem@) == Some(step_stem_text(update_index as nat)),
{
    proof {
        lemma_latest_name_plain();
        lemma_step_name_plain(update_index as nat);
    }
    let latest_weights_stem = path_join(directory, LATEST_STEM);
    let name = step_stem_name(update_index);
    let step_weights_stem = path_join(directory, name.as_str());
    let latest_meta_path = meta_file_path(latest_weights_stem.as_str());
    let step_meta_path = meta_file_path(step_weights_stem.as_str());
    CheckpointPaths {
        directory: String::from_str(directory),
        latest_weights_stem,
        latest_meta_path,
        step_weights_stem,
        step_meta_path,
    }
}

/// The paths a save is written to, all from one outcome of the data-directory lookup.
pub open spec fn save_paths_outcome(
    data: Option<String>,
    creature_id: Seq<char>,
    update_index: nat,
    paths: Result<CheckpointPaths, CheckpointError>,
) -> bool {
    match data {
        None => paths matches Err(CheckpointError::DataDirUnavailable),
        Some(dir) => paths matches Ok(p) && {
            &&& p.directory@ == creature_dir_path(dir@, creature_id)
            &&& p.latest_weights_stem@ == latest_stem_path(dir@, creature_id)
            &&& p.latest_meta_path@ == path_with_extension(latest_stem_path(dir@, creature_id), META_EXTENSION@)
            &&& p.step_weights_stem@ == step_stem_path(dir@, creature_id, update_index)
            &&& p.step_meta_path@ == path_with_extension(
                step_stem_path(dir@, creature_id, update_index),
                META_EXTENSION@,
            )
        },
    }
}

/// Paths of a save of `creature_id` after update `update_index`, for an
/// outcome of the data-directory lookup: the creature directory, and the
/// `latest` and step-numbered stems and metadata files in it.
pub fn save_paths_in(data_dir: Option<String>, creature_id: &str, update_index: usize) -> (paths: Result<
    CheckpointPaths,
    CheckpointError,
>)
    ensures
        save_paths_outcome(data_dir, creature_id@, update_index as nat, paths),
        paths matches Ok(p) ==> path_file_name(p.latest_weights_stem@) == Some(LATEST_STEM@) && path_file_name(
            p.step_weights_stem@,
        ) == Some(step_stem_text(update_index as nat)),
{
    let directory = creature_checkpoint_dir_in(data_dir, creature_id)?;
    Ok(checkpoint_paths(directory.as_str(), update_index))
}

/// Paths of a save of `creature_id` after update `update_index` under the
/// platform data directory.
pub fn save_paths(creature_id: &str, update_index: usize) -> (paths: Result<CheckpointPaths, CheckpointError>)
    ensures
        exists|data: Option<String>| #[trigger] save_paths_outcome(data, creature_id@, update_index as nat, paths),
        paths matches Ok(p) ==> path_file_name(p.latest_weights_stem@) == Some(LATEST_STEM@) && path_file_name(
            p.step_weights_stem@,
        ) == Some(step_stem_text(update_index as nat)),
{
    save_paths_in(data_dir(), creature_id, update_index)
}

/// The text of an optional string.
pub open spec fn option_view(text: Option<String>) -> Option<Seq<char>> {
    match text {
        Some(t) => Some(t@),
        None => None,
    }
}

/// The extension the standard library reads off `path`.
pub open spec fn path_extension(path: Seq<char>) -> Option<Seq<char>> {
    match path_file_name(path) {
        Some(name) => extension_of_file_name(name),
        None => None,
    }
}

/// `extension` is that of a weight or metadata file.
pub open spec fn is_checkpoint_extension_text(extension: Option<Seq<char>>) -> bool {
    extension matches Some(e) && (e == WEIGHTS_EXTENSION@ || e == META_EXTENSION@)
}

/// Whether `extension` is that of a weight file (`mpk`) or a metadata file (`json`).
pub fn is_checkpoint_extension(extension: &Option<String>) -> (is_checkpoint: bool)
    ensures
        is_checkpoint == is_checkpoint_extension_text(
            option_view(*extension),
        ),
{
    match extension {
        Some(e) => {
            let weights = String::from_str(WEIGHTS_EXTENSION);
            let meta = String::from_str(META_EXTENSION);
            *e == weights || *e == meta
        },
        None => false,
    }
}

/// The weights stem a user path names.
pub open spec fn resolved_stem(path: Seq<char>, is_dir: bool) -> Seq<char> {
    if is_dir {
        joined_path(path, LATEST_STEM@)
    } else if is_checkpoint_extension_text(path_extension(path)) {
        path_with_extension(path, ""@)
    } else {
        path
    }
}

/// `stem` is the weights stem `path` names; a weight or metadata file that
/// ends with its file name names the path without its extension.
pub open spec fn resolved_from(path: Seq<char>, is_dir: bool, stem: Seq<char>) -> bool {
    &&& stem == resolved_stem(path, is_dir)
    &&& !is_dir && is_checkpoint_extension_text(path_extension(path)) && ends_with_extension(path) ==> stem
        == without_extension(path)
}

/// Weights stem named by a user path (no extension).
///
/// A directory (`is_dir`) names its `latest` checkpoint; a `.mpk` or `.json`
/// file names its stem; any other path is taken as a stem already.
pub fn resolve_checkpoint_stem(path: &str, is_dir: bool) -> (stem: String)
    ensures
        resolved_from(path@, is_dir, stem@),
{
    if is_dir {
        return path_join(path, LATEST_STEM);
    }
    let ext = extension(path);
    assert(option_view(ext) == path_extension(path@));
    if is_checkpoint_extension(&ext) {
        proof {
            reveal_strlit("");
        }
        with_extension(path, "")
    } else {
        String::from_str(path)
    }
}

/// Name shown for a loaded policy: the file name of the checkpoint stem the
/// path names, or the whole stem when it has no file name.
pub fn checkpoint_display_name(path: &str, is_dir: bool) -> (name: String)
    ensures
        name@ == match path_file_name(resolved_stem(path@, is_dir)) {
            Some(n) => n,
            None => resolved_stem(path@, is_dir),
        },
{
    let stem = resolve_checkpoint_stem(path, is_dir);
    match file_name(stem.as_str()) {
        Some(n) => n,
        None => stem,
    }
}

/// File name of the optimizer record for a weights file name: the name with
/// `_optim` appended, or `checkpoint_optim` when there is no name.
pub open spec fn optimizer_file_name_text(file_name: Option<Seq<char>>) -> Seq<char> {
    match file_name {
        Some(name) => name + OPTIM_SUFFIX@,
        None => FALLBACK_FILE_NAME@ + OPTIM_SUFFIX@,
    }
}

/// File name of the optimizer record for weights file name `file_name`.
pub fn optimizer_file_name(file_name: &Option<String>) -> (name: String)
    ensures
        name@ == optimizer_file_name_text(
            option_view(*file_name),
        ),
{
    let mut name = match file_name {
        Some(n) => n.clone(),
        None => String::from_str(FALLBACK_FILE_NAME),
    };
    name.append(OPTIM_SUFFIX);
    name
}

/// Optimizer-record stem next to a weights stem: `latest` gives
/// `latest_optim`, `step_000049` gives `step_000049_optim`.
pub fn optimizer_stem_from_weights_stem(weights_stem: &str) -> (stem: String)
    ensures
        stem@ == path_with_file_name(weights_stem@, optimizer_file_name_text(path_file_name(weights_stem@))),
        optimizer_stem_named(weights_stem@, stem@),
{
    let name = file_name(weights_stem);
    let optim_name = optimizer_file_name(&name);
    assert(option_view(name) == path_file_name(weights_stem@));
    proof {
        if let Some(n) = path_file_name(weights_stem@) {
            if is_plain_name(n) {
                lemma_suffixed_name_plain(n);
            }
        }
    }
    with_file_name(weights_stem, optim_name.as_str())
}

/// For a weights stem whose file name `n` is a plain name, the optimizer
/// stem ends with, and has as its file name, `n` followed by `_optim`.
pub open spec fn optimizer_stem_named(weights_stem: Seq<char>, stem: Seq<char>) -> bool {
    match path_file_name(weights_stem) {
        Some(n) => is_plain_name(n) ==> path_file_name(stem) == Some(n + OPTIM_SUFFIX@) && ends_with(
            stem,
            n + OPTIM_SUFFIX@,
        ),
        None => true,
    }
}

/// `latest` is a plain file name.
proof fn lemma_latest_name_plain()
    ensures
        is_plain_name(LATEST_STEM@),
{
    reveal_strlit("latest");
    assert(LATEST_STEM@ =~= seq!['l', 'a', 't', 'e', 's', 't']);
}

/// Step names are plain file names.
proof fn lemma_step_name_plain(update_index: nat)
    ensures
        is_plain_name(step_stem_text(update_index)),
{
    lemma_zero_padded_digits(update_index, 6);
    let t = step_stem_text(update_index);
    let digits = zero_padded(update_index, 6);
    assert forall|i: int| 0 <= i < t.len() implies #[trigger] t[i] != '/' && t[i] != '\\' && t[i] != ':' by {
        if i >= 5 {
            assert(t[i] == digits[i - 5]);
            assert(is_digit_char(digits[i - 5]));
        }
    }
    assert(t[0] == 's');
}

/// A plain name followed by `_optim` is a plain name.
proof fn lemma_suffixed_name_plain(n: Seq<char>)
    requires
        is_plain_name(n),
    ensures
        is_plain_name(n + OPTIM_SUFFIX@),
{
    reveal_strlit("_optim");
    let t = n + OPTIM_SUFFIX@;
    assert forall|i: int| 0 <= i < t.len() implies #[trigger] t[i] != '/' && t[i] != '\\' && t[i] != ':' by {
        if i < n.len() {
            assert(t[i] == n[i]);
        } else {
            assert(t[i] == OPTIM_SUFFIX@[i - n.len()]);
        }
    }
    assert(t.len() >= 6);
}

/// Optimizer-record file of an optimizer stem (`.mpk`).
pub fn optimizer_file_path(optim_stem: &str) -> (path: String)
    ensures
        with_extension_of(optim_stem@, WEIGHTS_EXTENSION@, path@),
{
    proof {
        reveal_strlit("mpk");
    }
    with_extension(optim_stem, WEIGHTS_EXTENSION)
}

/// Checkpoint metadata `meta` fits a model of `config` for creature `creature_id`.
pub open spec fn meta_fits<F>(meta: PolicyCheckpointMeta<F>, creature_id: Seq<char>, config: ActorCriticConfig<F>) -> bool {
    &&& meta.creature_id@ == creature_id
    &&& meta.observation_dim == config.observation_dim
    &&& meta.action_dim == config.action_dim
    &&& meta.hidden_dims@ == config.hidden_dims@
}

/// Checks that checkpoint metadata fits the model it is about to be loaded into.
///
/// Checks, in order, the creature id, the observation and action dimensions,
/// and the hidden widths; the first mismatch is reported.
pub fn validate_meta<F: Copy>(
    meta: &PolicyCheckpointMeta<F>,
    expected_creature_id: &str,
    expected_config: &ActorCriticConfig<F>,
) -> (checked: Result<(), CheckpointError>)
    ensures
        checked is Ok <==> meta_fits(*meta, expected_creature_id@, *expected_config),
        match checked {
            Ok(()) => true,
            Err(CheckpointError::CreatureMismatch { expected, found }) => {
                &&& meta.creature_id@ != expected_creature_id@
                &&& expected@ == expected_creature_id@
                &&& found@ == meta.creature_id@
            },
            Err(CheckpointError::DimMismatch { field, expected, found }) => {
                &&& meta.creature_id@ == expected_creature_id@
                &&& if meta.observation_dim != expected_config.observation_dim {
                    &&& field@ == "observation_dim"@
                    &&& expected == expected_config.observation_dim
                    &&& found == meta.observation_dim
                } else {
                    &&& meta.action_dim != expected_config.action_dim
                    &&& field@ == "action_dim"@
                    &&& expected == expected_config.action_dim
                    &&& found == meta.action_dim
                }
            },
            Err(CheckpointError::ArchMismatch { field, expected, found }) => {
                &&& meta.creature_id@ == expected_creature_id@
                &&& meta.observation_dim == expected_config.observation_dim
                &&& meta.action_dim == expected_config.action_dim
                &&& meta.hidden_dims@ != expected_config.hidden_dims@
                &&& field@ == "hidden_dims"@
                &&& expected@ == list_text(expected_config.hidden_dims@)
                &&& found@ == list_text(meta.hidden_dims@)
            },
            Err(_) => false,
        },
{
    let expected_id = String::from_str(expected_creature_id);
    if meta.creature_id != expected_id {
        return Err(CheckpointError::CreatureMismatch { expected: expected_id, found: meta.creature_id.clone() });
    }
    if meta.observation_dim != expected_config.observation_dim {
        return Err(
            CheckpointError::DimMismatch {
                field: "observation_dim",
                expected: expected_config.observation_dim,
                found: meta.observation_dim,
            },
        );
    }
    if meta.action_dim != expected_config.action_dim {
        return Err(
            CheckpointError::DimMismatch {
                field: "action_dim",
                expected: expected_config.action_dim,
                found: meta.action_dim,
            },
        );
    }
    if !same_dims(&meta.hidden_dims, &expected_config.hidden_dims) {
        let expected = string_from_chars(&list_chars(&expected_config.hidden_dims));
        let found = string_from_chars(&list_chars(&meta.hidden_dims));
        return Err(CheckpointError::ArchMismatch { field: "hidden_dims", expected, found });
    }
    Ok(())
}

/// Whether two lists of dimensions are equal.
pub fn same_dims(a: &Vec<usize>, b: &Vec<usize>) -> (same: bool)
    ensures
        same == (a@ == b@),
{
    if a.len() != b.len() {
        return false;
    }
    let mut i: usize = 0;
    while i < a.len()
        invariant
            a@.len() == b@.len(),
            i <= a@.len(),
            forall|k: int| 0 <= k < i ==> a@[k] == b@[k],
        decreases a@.len() - i,
    {
        if a[i] != b[i] {
            return false;
        }
        i = i + 1;
    }
    assert(a@ =~= b@);
    true
}

/// Checkpoints saved after different updates get different step names, so a
/// save never overwrites the step-numbered checkpoint of another update.
pub proof fn lemma_step_stems_distinct(a: nat, b: nat)
    requires
        step_stem_text(a) == step_stem_text(b),
    ensures
        a == b,
{
    let prefix = seq!['s', 't', 'e', 'p', '_'];
    assert(zero_padded(a, 6) =~= step_stem_text(a).subrange(5, step_stem_text(a).len() as int));
    assert(zero_padded(b, 6) =~= step_stem_text(b).subrange(5, step_stem_text(b).len() as int));
    lemma_zero_padded_injective(a, b, 6);
}

/// A save and the stems of one data-directory lookup agree: a save lands in
/// the creature directory, its `latest` stem is the latest checkpoint stem and
/// its step stem the step checkpoint stem; all three fail together, exactly
/// when there is no data directory.
pub proof fn lemma_save_paths_match_stems(
    data: Option<String>,
    creature_id: Seq<char>,
    update_index: nat,
    paths: Result<CheckpointPaths, CheckpointError>,
    dir: Result<String, CheckpointError>,
    latest: Result<String, CheckpointError>,
    step: Result<String, CheckpointError>,
)
    requires
        save_paths_outcome(data, creature_id, update_index, paths),
        creature_dir_outcome(data, creature_id, dir),
        latest_stem_outcome(data, creature_id, latest),
        step_stem_outcome(data, creature_id, update_index, step),
    ensures
        paths is Ok <==> data is Some,
        dir is Ok <==> data is Some,
        latest is Ok <==> data is Some,
        step is Ok <==> data is Some,
        paths matches Ok(p) ==> {
            &&& dir matches Ok(d) && p.directory@ == d@
            &&& latest matches Ok(l) && p.latest_weights_stem@ == l@
            &&& step matches Ok(t) && p.step_weights_stem@ == t@
            &&& p.latest_weights_stem@ == joined_path(p.directory@, LATEST_STEM@)
            &&& p.step_weights_stem@ == joined_path(p.directory@, step_stem_text(update_index))
        },
{
}

/// A file name followed by `.` and a dot-free extension has that extension.
proof fn lemma_appended_extension(n: Seq<char>, e: Seq<char>)
    requires
        n.len() > 0,
        is_simple_extension(e),
    ensures
        extension_of_file_name(n + seq!['.'] + e) == Some(e),
{
    let m = n + seq!['.'] + e;
    let d = n.len() as int;
    assert(m[d] == '.');
    assert forall|k: int| d < k < m.len() implies m[k] != '.' by {
        assert(m[k] == e[k - d - 1]);
    }
    let i = choose|i: int| 1 <= i < m.len() && m[i] == '.' && forall|k: int| i < k < m.len() ==> m[k] != '.';
    if i < d {
        assert(m[d] != '.');
    }
    assert(i == d);
    assert(m.subrange(i + 1, m.len() as int) =~= e);
}

/// Appending a dot-free suffix to a file name without an extension keeps it without one.
proof fn lemma_suffix_keeps_no_extension(n: Seq<char>, suffix: Seq<char>)
    requires
        extension_of_file_name(n) is None,
        forall|k: int| 0 <= k < suffix.len() ==> #[trigger] suffix[k] != '.',
    ensures
        extension_of_file_name(n + suffix) is None,
{
    let m = n + suffix;
    if exists|i: int| 1 <= i < m.len() && m[i] == '.' {
        let i = choose|i: int| 1 <= i < m.len() && m[i] == '.';
        if i < n.len() {
            assert(n[i] == '.');
            assert(extension_of_file_name(n) is Some);
        } else {
            assert(suffix[i - n.len()] == '.');
        }
    }
}

/// The metadata and weight files a save writes for a stem resolve back to
/// that stem, when the stem ends with its file name and has no extension.
pub proof fn lemma_saved_files_resolve_to_stem(
    stem: Seq<char>,
    weights: Seq<char>,
    meta: Seq<char>,
    from_weights: Seq<char>,
    from_meta: Seq<char>,
)
    requires
        is_bare_stem(stem),
        with_extension_of(stem, WEIGHTS_EXTENSION@, weights),
        with_extension_of(stem, META_EXTENSION@, meta),
        resolved_from(weights, false, from_weights),
        resolved_from(meta, false, from_meta),
    ensures
        from_weights == stem,
        from_meta == stem,
{
    reveal_strlit("mpk");
    reveal_strlit("json");
    let n = path_file_name(stem)->0;
    lemma_file_resolves(stem, n, WEIGHTS_EXTENSION@, weights, from_weights);
    lemma_file_resolves(stem, n, META_EXTENSION@, meta, from_meta);
}

proof fn lemma_file_resolves(stem: Seq<char>, n: Seq<char>, e: Seq<char>, file: Seq<char>, resolved: Seq<char>)
    requires
        is_bare_stem(stem),
        path_file_name(stem) == Some(n),
        is_simple_extension(e),
        e == WEIGHTS_EXTENSION@ || e == META_EXTENSION@,
        with_extension_of(stem, e, file),
        resolved_from(file, false, resolved),
    ensures
        resolved == stem,
{
    let m = n + seq!['.'] + e;
    assert(file == stem + seq!['.'] + e);
    assert(path_file_name(file) == Some(m));
    lemma_appended_extension(n, e);
    assert(ends_with(file, m)) by {
        assert(stem.subrange(stem.len() - n.len(), stem.len() as int) == n);
        assert(file.subrange(file.len() - m.len(), file.len() as int) =~= m) by {
            assert forall|k: int| 0 <= k < m.len() implies #[trigger] file.subrange(
                file.len() - m.len(),
                file.len() as int,
            )[k] == m[k] by {
                if k < n.len() {
                    assert(file[stem.len() - n.len() + k] == stem[stem.len() - n.len() + k]);
                    assert(stem.subrange(stem.len() - n.len(), stem.len() as int)[k] == n[k]);
                }
            }
        }
    }
    assert(path_extension(file) == Some(e));
    assert(ends_with_extension(file));
    assert(without_extension(file) =~= stem);
}

/// The optimizer record saved beside a weights stem is never the stem's
/// weight file, when the stem ends with its plain, extension-free file name.
pub proof fn lemma_optimizer_record_differs_from_weights(
    stem: Seq<char>,
    optim_stem: Seq<char>,
    optim_file: Seq<char>,
    weights: Seq<char>,
)
    requires
        is_bare_stem(stem),
        is_plain_name(path_file_name(stem)->0),
        optimizer_stem_named(stem, optim_stem),
        with_extension_of(optim_stem, WEIGHTS_EXTENSION@, optim_file),
        with_extension_of(stem, WEIGHTS_EXTENSION@, weights),
    ensures
        optim_file != weights,
{
    reveal_strlit("_optim");
    reveal_strlit("mpk");
    let n = path_file_name(stem)->0;
    let o = n + OPTIM_SUFFIX@;
    assert(OPTIM_SUFFIX@ =~= seq!['_', 'o', 'p', 't', 'i', 'm']);
    lemma_suffix_keeps_no_extension(n, OPTIM_SUFFIX@);
    assert(is_bare_stem(optim_stem));
    assert(path_file_name(optim_file) == Some(o + seq!['.'] + WEIGHTS_EXTENSION@));
    assert(path_file_name(weights) == Some(n + seq!['.'] + WEIGHTS_EXTENSION@));
    assert((o + seq!['.'] + WEIGHTS_EXTENSION@).len() != (n + seq!['.'] + WEIGHTS_EXTENSION@).len());
}

/// Stems saved after different updates differ, and no step stem is the
/// `latest` stem, so a save never overwrites another update's checkpoint.
pub proof fn lemma_saved_stems_never_collide(
    step_a: Seq<char>,
    step_b: Seq<char>,
    latest: Seq<char>,
    a: nat,
    b: nat,
)
    requires
        path_file_name(step_a) == Some(step_stem_text(a)),
        path_file_name(step_b) == Some(step_stem_text(b)),
        path_file_name(latest) == Some(LATEST_STEM@),
    ensures
        a != b ==> step_a != step_b,
        step_a != latest,
{
    if step_a == step_b {
        lemma_step_stems_distinct(a, b);
    }
    reveal_strlit("latest");
    assert(step_stem_text(a)[0] == 's');
    assert(LATEST_STEM@[0] == 'l');
}

} // verus!
