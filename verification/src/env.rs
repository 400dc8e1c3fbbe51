//! Isolation of many environment instances inside one shared physics world.
//!
//! Environments are laid out on a grid (spatial separation) and assigned
//! collision layers so that bodies only interact within their own slot.
use vstd::prelude::*;
use avian3d::prelude::CollisionLayers;

verus! {

/// Identifies one isolated environment instance inside a shared physics world.
#[derive(Clone, Copy, Debug, PartialEq, Eq, Hash, Structural)]
pub struct EnvId(pub u32);

impl EnvId {
    /// The environment with index `id`.
    pub fn new(id: u32) -> (env_id: Self)
        ensures
            env_id.0 == id,
    {
        EnvId(id)
    }

    /// Index of the environment.
    pub fn index(self) -> (index: u32)
        ensures
            index == self.0,
    {
        self.0
    }
}

/// Number of grid columns actually used: at least one.
pub open spec fn effective_columns(grid_columns: u32) -> u32 {
    if grid_columns < 1 { 1 } else { grid_columns }
}

/// Grid cell `(column, row)` of an environment, filled row by row.
pub open spec fn spec_env_grid_cell(env_id: u32, grid_columns: u32) -> (u32, u32) {
    let columns = effective_columns(grid_columns);
    ((env_id % columns) as u32, (env_id / columns) as u32)
}

/// Grid cell `(column, row)` of an environment; its world origin is the
/// cell scaled by the environment spacing on the horizontal plane.
pub fn env_grid_cell(env_id: EnvId, grid_columns: u32) -> (cell: (u32, u32))
    ensures
        cell == spec_env_grid_cell(env_id.0, grid_columns),
{
    let columns = if grid_columns < 1 { 1 } else { grid_columns };
    (env_id.0 % columns, env_id.0 / columns)
}

/// Different environments get different grid cells, so their origins are
/// spatially separated.
pub proof fn lemma_env_cells_distinct(a: u32, b: u32, grid_columns: u32)
    requires
        a != b,
    ensures
        spec_env_grid_cell(a, grid_columns) != spec_env_grid_cell(b, grid_columns),
{
    let columns = effective_columns(grid_columns);
    let ai = a as int;
    let bi = b as int;
    let c = columns as int;
    assert(ai == (ai / c) * c + ai % c) by (nonlinear_arith)
        requires
            c >= 1,
    ;
    assert(bi == (bi / c) * c + bi % c) by (nonlinear_arith)
        requires
            c >= 1,
    ;
}

/// Number of collision layers that environments are spread over (layer 0,
/// the default layer, is left unused).
pub const ENV_LAYER_SLOTS: u32 = 31;

/// Layer of an environment: `env_id % 31 + 1`.
pub open spec fn env_layer(env_id: u32) -> u32 {
    ((env_id % ENV_LAYER_SLOTS) + 1) as u32
}

/// Membership and filter bits of an environment's collision layer.
pub open spec fn spec_env_layer_bits(env_id: u32) -> u32 {
    1u32 << env_layer(env_id)
}

/// Membership and filter bits of an environment's collision layer.
pub fn env_layer_bits(env_id: EnvId) -> (bits: u32)
    ensures
        bits == spec_env_layer_bits(env_id.0),
{
    let slot = (env_id.0 % ENV_LAYER_SLOTS) + 1;
    1u32 << slot
}

/// What `CollisionLayers::from_bits` returns for these bits.
pub uninterp spec fn layers_from_bits(memberships: u32, filters: u32) -> CollisionLayers;

#[verifier::external_type_specification]
#[verifier::external_body]
pub struct ExCollisionLayers(CollisionLayers);

/// `avian3d::prelude::CollisionLayers::from_bits`: the layer configuration
/// whose membership mask is `memberships` and whose filter mask is `filters`
/// (the function only stores the two masks). The result is named by
/// `layers_from_bits`.
#[verifier::external_body]
fn collision_layers_from_bits(memberships: u32, filters: u32) -> (layers: CollisionLayers)
    ensures
        layers == layers_from_bits(memberships, filters),
{
    CollisionLayers::from_bits(memberships, filters)
}

/// Collision layers of an environment: it belongs to, and collides with,
/// only its own layer `env_id % 31 + 1`. Spatial separation covers
/// environments that share a layer.
pub fn env_collision_layers(env_id: EnvId) -> (layers: CollisionLayers)
    ensures
        layers == layers_from_bits(spec_env_layer_bits(env_id.0), spec_env_layer_bits(env_id.0)),
{
    let bits = env_layer_bits(env_id);
    collision_layers_from_bits(bits, bits)
}

/// An environment's layer bits are a single bit, never the default layer's;
/// environments whose ids agree modulo 31 share their layer, and all others
/// have disjoint layers, so their bodies never interact.
pub proof fn lemma_env_layers_isolated(a: u32, b: u32)
    ensures
        spec_env_layer_bits(a) != 0,
        spec_env_layer_bits(a) & 1 == 0,
        a % ENV_LAYER_SLOTS == b % ENV_LAYER_SLOTS ==> spec_env_layer_bits(a) == spec_env_layer_bits(b),
        a % ENV_LAYER_SLOTS != b % ENV_LAYER_SLOTS ==> spec_env_layer_bits(a) & spec_env_layer_bits(b) == 0,
{
    let sa = env_layer(a);
    let sb = env_layer(b);
    assert(1 <= sa <= 31 && 1 <= sb <= 31);
    assert((1u32 << sa) != 0 && (1u32 << sa) & 1 == 0) by (bit_vector)
        requires
            1 <= sa <= 31,
    ;
    if a % ENV_LAYER_SLOTS != b % ENV_LAYER_SLOTS {
        assert(sa != sb);
        assert((1u32 << sa) & (1u32 << sb) == 0) by (bit_vector)
            requires
                1 <= sa <= 31,
                1 <= sb <= 31,
                sa != sb,
        ;
    }
}

/// Environments fill the grid row by row: an environment's column is below
/// the number of columns used (at least one), and its row times that number
/// plus its column gives back its index.
pub proof fn lemma_env_cells_fill_rows(env_id: u32, grid_columns: u32)
    ensures
        ({
            let (column, row) = spec_env_grid_cell(env_id, grid_columns);
            let columns = if grid_columns < 1 { 1int } else { grid_columns as int };
            &&& column < columns
            &&& row * columns + column == env_id
        }),
{
    let columns = effective_columns(grid_columns) as int;
    let e = env_id as int;
    assert(e == (e / columns) * columns + e % columns && 0 <= e % columns < columns) by (nonlinear_arith)
        requires
            columns >= 1,
    ;
}

} // verus!
