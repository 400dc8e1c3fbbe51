//! Procedural bumpy ground and limb flailing for the dog-on-ground environment.
//!
//! The ground is a `resolution` x `resolution` grid of vertices triangulated
//! into two triangles per cell; vertex heights and flail torques come from a
//! 64-bit mixing hash of integer seeds.
use vstd::prelude::*;

verus! {

/// Seed multiplier shared by the ground and flail hashes.
pub const SEED_MULTIPLIER: u64 = 0x9E37_79B9;

/// The 64-bit finalizer used to hash seeds: xor-shift and multiply rounds.
pub open spec fn spec_mix64(seed: u64) -> u64 {
    let a = seed ^ (seed >> 30u64);
    let b = vstd::wrapping::u64_specs::wrapping_mul(a, 0xBF58_476D_1CE4_E5B9);
    let c = b ^ (b >> 27u64);
    let d = vstd::wrapping::u64_specs::wrapping_mul(c, 0x94D0_49BB_1331_11EB);
    d ^ (d >> 31u64)
}

/// Hash of a seed (the hash's value over `u64::MAX` is the sample in `[0, 1]`).
pub fn mix64(seed: u64) -> (hash: u64)
    ensures
        hash == spec_mix64(seed),
{
    let mut value = seed;
    value = value ^ (value >> 30u64);
    value = value.wrapping_mul(0xBF58_476D_1CE4_E5B9);
    value = value ^ (value >> 27u64);
    value = value.wrapping_mul(0x94D0_49BB_1331_11EB);
    value = value ^ (value >> 31u64);
    value
}

/// Seed of the ground height sample at `(row, column)` of ground `seed`.
pub open spec fn spec_ground_sample_seed(seed: u32, row: u64, column: u64) -> u64 {
    vstd::wrapping::u64_specs::wrapping_add(
        vstd::wrapping::u64_specs::wrapping_add(
            vstd::wrapping::u64_specs::wrapping_mul(seed as u64, SEED_MULTIPLIER),
            row << 16u64,
        ),
        column,
    )
}

/// Seed of the ground height sample at `(row, column)` of ground `seed` (the environment's index).
pub fn ground_sample_seed(seed: u32, row: usize, column: usize) -> (sample: u64)
    ensures
        sample == spec_ground_sample_seed(seed, row as u64, column as u64),
{
    (seed as u64).wrapping_mul(SEED_MULTIPLIER).wrapping_add((row as u64) << 16u64).wrapping_add(column as u64)
}

/// Seeds of the three torque components of a flailing limb at simulation tick `tick`.
pub open spec fn spec_flail_seeds(tick: u64, entity_bits: u64) -> (u64, u64, u64) {
    let seed = vstd::wrapping::u64_specs::wrapping_add(
        vstd::wrapping::u64_specs::wrapping_mul(tick, SEED_MULTIPLIER),
        entity_bits,
    );
    (
        seed,
        vstd::wrapping::u64_specs::wrapping_mul(seed, 0x85EB_CA6B),
        vstd::wrapping::u64_specs::wrapping_mul(seed, 0xC2B2_AE35),
    )
}

/// Seeds of the three torque components of a flailing limb at simulation tick `tick`.
pub fn flail_seeds(tick: u64, entity_bits: u64) -> (seeds: (u64, u64, u64))
    ensures
        seeds == spec_flail_seeds(tick, entity_bits),
{
    let seed = tick.wrapping_mul(SEED_MULTIPLIER).wrapping_add(entity_bits);
    (seed, seed.wrapping_mul(0x85EB_CA6B), seed.wrapping_mul(0xC2B2_AE35))
}

/// Triangle `k` of a `resolution` x `resolution` vertex grid: cell
/// `(row, column)` gives triangles `2 * (row * (resolution - 1) + column)`
/// and the one after it, wound counter-clockwise seen from above.
pub open spec fn grid_triangle(resolution: nat, k: nat) -> [u32; 3] {
    let cell = k / 2;
    let row = cell / ((resolution - 1) as nat);
    let column = cell % ((resolution - 1) as nat);
    let top_left = row * resolution + column;
    let top_right = top_left + 1;
    let bottom_left = (row + 1) * resolution + column;
    let bottom_right = bottom_left + 1;
    if k % 2 == 0 {
        [top_left as u32, top_right as u32, bottom_left as u32]
    } else {
        [top_right as u32, bottom_right as u32, bottom_left as u32]
    }
}

/// Triangle indices of a `resolution` x `resolution` vertex grid, two per cell, row by row.
pub fn grid_triangles(resolution: usize) -> (triangles: Vec<[u32; 3]>)
    requires
        resolution >= 1,
        resolution * resolution <= u32::MAX,
    ensures
        triangles@.len() == 2 * (resolution - 1) * (resolution - 1),
        forall|k: int| 0 <= k < triangles@.len() ==> #[trigger] triangles@[k] == grid_triangle(resolution as nat, k as nat),
{
    let ghost r = resolution as nat;
    let mut triangles: Vec<[u32; 3]> = Vec::new();
    let cells = resolution - 1;
    let mut row: usize = 0;
    proof {
        assert(cells * cells <= resolution * resolution) by (nonlinear_arith)
            requires
                cells < resolution,
        ;
        assert(2 * row * cells == 0) by (nonlinear_arith)
            requires
                row == 0,
        ;
    }
    while row < cells
        invariant
            r == resolution,
            cells == resolution - 1,
            resolution >= 1,
            resolution * resolution <= u32::MAX,
            row <= cells,
            triangles@.len() == 2 * row * cells,
            forall|k: int| 0 <= k < triangles@.len() ==> #[trigger] triangles@[k] == grid_triangle(r, k as nat),
        decreases cells - row,
    {
        let mut column: usize = 0;
        assert(2 * (row * cells + column) == 2 * row * cells) by (nonlinear_arith)
            requires
                column == 0,
        ;
        while column < cells
            invariant
                r == resolution,
                cells == resolution - 1,
                resolution >= 1,
                resolution * resolution <= u32::MAX,
                row < cells,
                column <= cells,
                triangles@.len() == 2 * (row * cells + column),
                forall|k: int| 0 <= k < triangles@.len() ==> #[trigger] triangles@[k] == grid_triangle(r, k as nat),
            decreases cells - column,
        {
            proof {
                assert((row + 1) * resolution + column + 1 < resolution * resolution) by (nonlinear_arith)
                    requires
                        row + 1 < resolution,
                        column + 1 < resolution,
                ;
                assert(row * resolution + column <= (row + 1) * resolution + column) by (nonlinear_arith)
                    requires
                        resolution >= 1,
                ;
            }
            let top_left = (row * resolution + column) as u32;
            let top_right = top_left + 1;
            let bottom_left = ((row + 1) * resolution + column) as u32;
            let bottom_right = bottom_left + 1;
            let ghost k0 = triangles@.len();
            proof {
                let cell: int = row * cells + column;
                let cs: int = cells as int;
                assert(k0 == 2 * cell);
                assert((2 * cell) / 2 == cell && (2 * cell + 1) / 2 == cell);
                assert(cell / cs == row && cell % cs == column) by (nonlinear_arith)
                    requires
                        cell == row * cs + column,
                        0 <= column < cs,
                        row >= 0,
                ;
            }
            triangles.push([top_left, top_right, bottom_left]);
            triangles.push([top_right, bottom_right, bottom_left]);
            proof {
                assert(triangles@[k0 as int] == grid_triangle(r, k0 as nat));
                assert(triangles@[k0 + 1int] == grid_triangle(r, (k0 + 1) as nat));
            }
            column = column + 1;
        }
        proof {
            assert(2 * (row * cells + cells) == 2 * (row + 1) * cells) by (nonlinear_arith);
        }
        row = row + 1;
    }
    proof {
        assert(2 * cells * cells == 2 * (resolution - 1) * (resolution - 1));
    }
    triangles
}

/// Every index of the grid triangulation names a vertex of the grid, and
/// the triangulation has two triangles per grid cell.
pub proof fn lemma_grid_triangles_in_range(resolution: nat, k: nat)
    requires
        resolution >= 2,
        resolution * resolution <= u32::MAX,
        k < 2 * (resolution - 1) * (resolution - 1),
    ensures
        grid_triangle(resolution, k)[0] < resolution * resolution,
        grid_triangle(resolution, k)[1] < resolution * resolution,
        grid_triangle(resolution, k)[2] < resolution * resolution,
{
    let cells = (resolution - 1) as nat;
    let cell = k / 2;
    assert(cell < cells * cells) by (nonlinear_arith)
        requires
            k < 2 * cells * cells,
            cell == k / 2,
    ;
    let row = cell / cells;
    let column = cell % cells;
    assert(row < cells && column < cells) by (nonlinear_arith)
        requires
            cells >= 1,
            cell < cells * cells,
            row == cell / cells,
            column == cell % cells,
    ;
    assert((row + 1) * resolution + column + 1 < resolution * resolution) by (nonlinear_arith)
        requires
            row + 1 < resolution,
            column + 1 < resolution,
    ;
    assert(row * resolution + column + 1 <= (row + 1) * resolution + column + 1) by (nonlinear_arith)
        requires
            resolution >= 1,
    ;
}

/// A body takes random flail torques when its name ends in `_upper` or `_lower` (the leg segments).
pub open spec fn is_limb_name(name: Seq<char>) -> bool {
    let n = name.len();
    n >= 6 && (name.subrange(n - 6, n as int) == seq!['_', 'u', 'p', 'p', 'e', 'r'] || name.subrange(
        n - 6,
        n as int,
    ) == seq!['_', 'l', 'o', 'w', 'e', 'r'])
}

/// Whether the body named `name` is a leg segment that flails.
pub fn is_limb(name: &str) -> (limb: bool)
    ensures
        limb == is_limb_name(name@),
{
    let n = name.unicode_len();
    if n < 6 {
        return false;
    }
    let c0 = name.get_char(n - 6);
    let c1 = name.get_char(n - 5);
    let c2 = name.get_char(n - 4);
    let c3 = name.get_char(n - 3);
    let c4 = name.get_char(n - 2);
    let c5 = name.get_char(n - 1);
    let upper = c0 == '_' && c1 == 'u' && c2 == 'p' && c3 == 'p' && c4 == 'e' && c5 == 'r';
    let lower = c0 == '_' && c1 == 'l' && c2 == 'o' && c3 == 'w' && c4 == 'e' && c5 == 'r';
    proof {
        let tail = name@.subrange(n - 6, n as int);
        assert(upper == (tail =~= seq!['_', 'u', 'p', 'p', 'e', 'r']));
        assert(lower == (tail =~= seq!['_', 'l', 'o', 'w', 'e', 'r']));
    }
    upper || lower
}

/// Every body whose name ends in `_upper` or `_lower` is a limb, and no name
/// shorter than such a suffix is one.
pub proof fn lemma_limb_suffixes(prefix: Seq<char>, name: Seq<char>)
    ensures
        is_limb_name(prefix + seq!['_', 'u', 'p', 'p', 'e', 'r']),
        is_limb_name(prefix + seq!['_', 'l', 'o', 'w', 'e', 'r']),
        name.len() < 6 ==> !is_limb_name(name),
{
    let upper = prefix + seq!['_', 'u', 'p', 'p', 'e', 'r'];
    let lower = prefix + seq!['_', 'l', 'o', 'w', 'e', 'r'];
    assert(upper.subrange(upper.len() - 6, upper.len() as int) =~= seq!['_', 'u', 'p', 'p', 'e', 'r']);
    assert(lower.subrange(lower.len() - 6, lower.len() as int) =~= seq!['_', 'l', 'o', 'w', 'e', 'r']);
}

/// The two triangles of each grid cell share its top-right and bottom-left
/// corners and together cover its four corners: the first is (top-left,
/// top-right, bottom-left), the second (top-right, bottom-right, bottom-left),
/// where right is one index on and bottom one row (`resolution` indices) on.
pub proof fn lemma_grid_cell_triangles(resolution: nat, cell: nat)
    requires
        resolution >= 2,
        resolution * resolution <= u32::MAX,
        cell < (resolution - 1) * (resolution - 1),
    ensures
        ({
            let first = grid_triangle(resolution, 2 * cell);
            let second = grid_triangle(resolution, 2 * cell + 1);
            let top_left = (cell / ((resolution - 1) as nat)) * resolution + cell % ((resolution - 1) as nat);
            &&& first[0] == top_left
            &&& first[1] == top_left + 1
            &&& first[2] == top_left + resolution
            &&& second[0] == top_left + 1
            &&& second[1] == top_left + resolution + 1
            &&& second[2] == top_left + resolution
        }),
{
    let k = 2 * cell;
    assert(k / 2 == cell && k % 2 == 0 && (k + 1) / 2 == cell && (k + 1) % 2 == 1);
    let cells = (resolution - 1) as nat;
    assert(k + 1 < 2 * (resolution - 1) * (resolution - 1)) by (nonlinear_arith)
        requires
            k == 2 * cell,
            cell < (resolution - 1) * (resolution - 1),
    ;
    lemma_grid_triangles_in_range(resolution, k);
    lemma_grid_triangles_in_range(resolution, k + 1);
    let row = cell / cells;
    let column = cell % cells;
    assert(row * resolution + column + resolution + 1 < resolution * resolution) by (nonlinear_arith)
        requires
            cells >= 1,
            resolution == cells + 1,
            cell < cells * cells,
            row == cell / cells,
            column == cell % cells,
    ;
    assert((row + 1) * resolution + column == row * resolution + column + resolution) by (nonlinear_arith);
}

} // verus!
