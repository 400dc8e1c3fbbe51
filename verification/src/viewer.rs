//! Multi-view layout: one camera viewport per watched environment, tiled in
//! a near-square grid over the window.
use vstd::prelude::*;

verus! {

/// Most environments the viewer shows at once.
pub const MAX_VIEW_COUNT: usize = 64;

/// Environments the viewer shows when none are requested.
pub const DEFAULT_ENV_COUNT: usize = 4;

/// The least `c >= start` with `c * c >= n`.
pub open spec fn least_root_from(n: nat, start: nat) -> nat
    decreases n - start,
{
    if start * start >= n || start >= n {
        start
    } else {
        least_root_from(n, start + 1)
    }
}

/// Grid columns for `n` views: `ceil(sqrt(n))`, at least one.
pub open spec fn grid_columns(n: nat) -> nat {
    least_root_from(n, 1)
}

/// Grid rows for `n` views: `ceil(n / columns)`, at least one.
pub open spec fn grid_rows(n: nat) -> nat {
    let rows = (n + grid_columns(n) - 1) / (grid_columns(n) as int);
    if rows < 1 { 1 } else { rows as nat }
}

proof fn lemma_least_root(n: nat, start: nat)
    requires
        start >= 1,
    ensures
        least_root_from(n, start) >= start,
        least_root_from(n, start) * least_root_from(n, start) >= n,
        least_root_from(n, start) > start ==> (least_root_from(n, start) - 1) * (least_root_from(n, start) - 1) < n,
    decreases n - start,
{
    if start * start >= n {
    } else if start >= n {
        assert(start * start >= start) by (nonlinear_arith)
            requires
                start >= 1,
        ;
    } else {
        lemma_least_root(n, start + 1);
    }
}

/// Largest view count for which the grid is the exact integer one: up to it,
/// the count is exact in 32-bit floating point and the ceilings of its square
/// root and of the row quotient come out as in exact arithmetic; beyond it
/// the grid the viewer computes depends on float rounding.
pub const MAX_EXACT_VIEW_COUNT: usize = 16_777_216;

/// Columns and rows of the viewport grid for `view_count` views.
pub fn viewport_grid(view_count: usize) -> (grid: (u32, u32))
    requires
        view_count <= MAX_EXACT_VIEW_COUNT,
    ensures
        grid.0 == grid_columns(view_count as nat),
        grid.1 == grid_rows(view_count as nat),
        grid.0 >= 1,
        grid.1 >= 1,
        grid.0 * grid.0 >= view_count,
        grid.0 == 1 || (grid.0 - 1) * (grid.0 - 1) < view_count,
{
    let ghost n = view_count as nat;
    let count = view_count as u64;
    let mut columns: u64 = 1;
    while columns < count && columns * columns < count
        invariant
            1 <= columns <= 0x1_0000,
            columns * columns <= 0x1_0000_0000,
            count == 0 || columns <= count,
            count == view_count,
            count <= u32::MAX,
            n == view_count,
            least_root_from(n, columns as nat) == grid_columns(n),
        decreases count - columns,
    {
        assert(columns < 0x1_0000) by (nonlinear_arith)
            requires
                columns * columns < count,
                count <= u32::MAX,
                columns >= 1,
        ;
        columns = columns + 1;
        assert(columns * columns <= 0x1_0000_0000) by (nonlinear_arith)
            requires
                1 <= columns <= 0x1_0000,
        ;
    }
    proof {
        lemma_least_root(n, 1);
        assert(columns * columns <= 0x1_0000 * 0x1_0000) by (nonlinear_arith)
            requires
                1 <= columns <= 0x1_0000,
        ;
        assert((count + columns - 1) / (columns as int) <= u32::MAX) by (nonlinear_arith)
            requires
                1 <= columns,
                count <= u32::MAX,
                columns <= count || count == 0,
        ;
    }
    let rows = (count + columns - 1) / columns;
    let rows = if rows < 1 { 1 } else { rows };
    (columns as u32, rows as u32)
}

/// One viewport: top-left corner and size, in physical pixels.
#[derive(Clone, Copy, Debug, PartialEq, Eq, Structural)]
pub struct ViewportCell {
    pub x: u32,
    pub y: u32,
    pub width: u32,
    pub height: u32,
}

/// The viewport of `slot` among `view_count` views in a `width` x `height` window.
pub open spec fn spec_viewport(view_count: nat, width: nat, height: nat, slot: nat) -> ViewportCell {
    let columns = grid_columns(view_count);
    let rows = grid_rows(view_count);
    let cell_width = width / columns;
    let cell_height = height / rows;
    ViewportCell {
        x: ((slot % columns) * cell_width) as u32,
        y: ((slot / columns) * cell_height) as u32,
        width: cell_width as u32,
        height: cell_height as u32,
    }
}

/// The viewport of view `slot`: views fill the grid row by row, every cell
/// the same size; `None` for a slot beyond the views.
pub fn viewport_layout(view_count: usize, width: u32, height: u32, slot: usize) -> (cell: Option<ViewportCell>)
    requires
        view_count <= MAX_EXACT_VIEW_COUNT,
    ensures
        cell == if slot >= view_count || view_count == 0 {
            None
        } else {
            Some(spec_viewport(view_count as nat, width as nat, height as nat, slot as nat))
        },
{
    if slot >= view_count || view_count == 0 {
        return None;
    }
    let (columns, rows) = viewport_grid(view_count);
    let cell_width = width / columns;
    let cell_height = height / rows;
    let slot32 = slot as u32;
    let column = slot32 % columns;
    let row = slot32 / columns;
    proof {
        lemma_cell_fits(view_count as nat, width as nat, height as nat, slot as nat);
    }
    Some(ViewportCell { x: column * cell_width, y: row * cell_height, width: cell_width, height: cell_height })
}

/// Slot `slot`'s cell lies inside the window.
proof fn lemma_cell_fits(view_count: nat, width: nat, height: nat, slot: nat)
    requires
        slot < view_count,
        view_count <= u32::MAX,
        width <= u32::MAX,
        height <= u32::MAX,
    ensures
        (slot % grid_columns(view_count)) * (width / grid_columns(view_count)) + width / grid_columns(view_count)
            <= width,
        (slot / grid_columns(view_count)) * (height / grid_rows(view_count)) + height / grid_rows(view_count)
            <= height,
{
    lemma_least_root(view_count, 1);
    let c = grid_columns(view_count);
    let r = grid_rows(view_count);
    let col = slot % c;
    let row = slot / c;
    let cw = width / c;
    let ch = height / r;
    assert(col + 1 <= c) by (nonlinear_arith)
        requires
            c >= 1,
            col == slot % c,
    ;
    assert(col * cw + cw <= width) by (nonlinear_arith)
        requires
            c >= 1,
            col + 1 <= c,
            cw == width / c,
    ;
    assert(row + 1 <= r) by (nonlinear_arith)
        requires
            c >= 1,
            row == slot / c,
            slot < view_count,
            r >= (view_count + c - 1) / (c as int),
    ;
    assert(row * ch + ch <= height) by (nonlinear_arith)
        requires
            r >= 1,
            row + 1 <= r,
            ch == height / r,
    ;
}

/// Every view's viewport lies inside the window, and the viewports of two
/// different views never overlap.
pub proof fn lemma_viewports_tile_window(view_count: nat, width: nat, height: nat, a: nat, b: nat)
    requires
        view_count <= u32::MAX,
        width <= u32::MAX,
        height <= u32::MAX,
        a < view_count,
        b < view_count,
    ensures
        ({
            let va = spec_viewport(view_count, width, height, a);
            let vb = spec_viewport(view_count, width, height, b);
            &&& va.x + va.width <= width
            &&& va.y + va.height <= height
            &&& a != b ==> (va.x + va.width <= vb.x || vb.x + vb.width <= va.x || va.y + va.height <= vb.y
                || vb.y + vb.height <= va.y)
        }),
{
    lemma_least_root(view_count, 1);
    lemma_cell_fits(view_count, width, height, a);
    lemma_cell_fits(view_count, width, height, b);
    let c = grid_columns(view_count);
    let r = grid_rows(view_count);
    let cw = width / c;
    let ch = height / r;
    if a != b {
        assert(a % c != b % c || a / c != b / c) by (nonlinear_arith)
            requires
                c >= 1,
                a != b,
        ;
        let ca: int = (a % c) as int;
        let cb: int = (b % c) as int;
        let ra: int = (a / c) as int;
        let rb: int = (b / c) as int;
        let w: int = cw as int;
        let h: int = ch as int;
        if ca < cb {
            assert(ca * w + w <= cb * w) by (nonlinear_arith)
                requires
                    ca < cb,
                    w >= 0,
            ;
        } else if cb < ca {
            assert(cb * w + w <= ca * w) by (nonlinear_arith)
                requires
                    cb < ca,
                    w >= 0,
            ;
        } else if ra < rb {
            assert(ra * h + h <= rb * h) by (nonlinear_arith)
                requires
                    ra < rb,
                    h >= 0,
            ;
        } else {
            assert(rb * h + h <= ra * h) by (nonlinear_arith)
                requires
                    rb < ra,
                    h >= 0,
            ;
        }
    }
}

/// Number of environments the viewer shows for a requested count: clamped to `1..=MAX_VIEW_COUNT`.
pub fn viewer_env_count(requested: u32) -> (count: usize)
    ensures
        count == if requested < 1 {
            1
        } else if requested > MAX_VIEW_COUNT {
            MAX_VIEW_COUNT as int
        } else {
            requested as int
        },
{
    if requested < 1 {
        1
    } else if requested as usize > MAX_VIEW_COUNT {
        MAX_VIEW_COUNT
    } else {
        requested as usize
    }
}

/// Environments to respawn after the env-count slider moved: the new count,
/// once the drag is final and the count differs from the spawned one.
pub fn env_count_change(is_final: bool, spawned_count: usize, count: usize) -> (respawn: Option<usize>)
    ensures
        respawn == if is_final && spawned_count != count { Some(count) } else { None },
{
    if !is_final || spawned_count == count {
        None
    } else {
        Some(count)
    }
}

/// Cameras to keep and slots to open when `env_count` views are shown:
/// a camera survives when its slot is a shown view; every shown slot without
/// a camera gets one, in slot order.
pub fn camera_plan(camera_slots: &Vec<usize>, env_count: usize) -> (plan: (Vec<bool>, Vec<usize>))
    requires
        env_count <= MAX_VIEW_COUNT,
    ensures
        plan.0@.len() == camera_slots@.len(),
        forall|c: int| 0 <= c < camera_slots@.len() ==> #[trigger] plan.0@[c] == (camera_slots@[c] < env_count),
        forall|p: int, q: int| 0 <= p < q < plan.1@.len() ==> plan.1@[p] < plan.1@[q],
        forall|s: usize|
            s < env_count && !camera_slots@.contains(s) <==> plan.1@.contains(s),
{
    let mut keep: Vec<bool> = Vec::new();
    let mut c: usize = 0;
    while c < camera_slots.len()
        invariant
            c <= camera_slots@.len(),
            keep@.len() == c,
            forall|x: int| 0 <= x < c ==> #[trigger] keep@[x] == (camera_slots@[x] < env_count),
        decreases camera_slots@.len() - c,
    {
        keep.push(camera_slots[c] < env_count);
        c = c + 1;
    }
    let mut open: Vec<usize> = Vec::new();
    let mut slot: usize = 0;
    while slot < env_count
        invariant
            slot <= env_count,
            forall|p: int, q: int| 0 <= p < q < open@.len() ==> open@[p] < open@[q],
            forall|p: int| 0 <= p < open@.len() ==> #[trigger] open@[p] < slot,
            forall|s: usize| s < slot && !camera_slots@.contains(s) <==> open@.contains(s),
        decreases env_count - slot,
    {
        let mut present = false;
        let mut k: usize = 0;
        while k < camera_slots.len()
            invariant
                k <= camera_slots@.len(),
                present <==> exists|x: int| 0 <= x < k && camera_slots@[x] == slot,
            decreases camera_slots@.len() - k,
        {
            if camera_slots[k] == slot {
                present = true;
            }
            k = k + 1;
        }
        let ghost before = open@;
        if !present {
            open.push(slot);
        }
        proof {
            assert forall|s: usize| s < slot + 1 && !camera_slots@.contains(s) <==> open@.contains(s) by {
                if s < slot {
                    if before.contains(s) {
                        let p = choose|p: int| 0 <= p < before.len() && before[p] == s;
                        assert(open@[p] == s);
                    }
                    if open@.contains(s) {
                        let p = choose|p: int| 0 <= p < open@.len() && open@[p] == s;
                        if p == before.len() {
                            assert(open@[p] == slot);
                        } else {
                            assert(before[p] == s);
                        }
                    }
                } else if s == slot {
                    if present {
                        let x = choose|x: int| 0 <= x < camera_slots@.len() && camera_slots@[x] == slot;
                        assert(camera_slots@.contains(s));
                        if open@.contains(s) {
                            let p = choose|p: int| 0 <= p < open@.len() && open@[p] == s;
                            assert(before[p] < slot);
                        }
                    } else {
                        assert(open@[open@.len() - 1] == slot);
                        if camera_slots@.contains(s) {
                            let x = choose|x: int| 0 <= x < camera_slots@.len() && camera_slots@[x] == s;
                        }
                    }
                } else {
                    if open@.contains(s) {
                        let p = choose|p: int| 0 <= p < open@.len() && open@[p] == s;
                        if p < before.len() {
                            assert(before[p] < slot);
                        }
                    }
                }
            }
        }
        slot = slot + 1;
    }
    (keep, open)
}

/// The viewport grid is the smallest square-ish grid that fits the views:
/// its columns are the least whose square holds them, and its rows are the
/// fewest that hold them at that many per row (at least one row).
pub proof fn lemma_grid_fits_views(view_count: nat)
    ensures
        grid_columns(view_count) >= 1,
        grid_columns(view_count) * grid_columns(view_count) >= view_count,
        grid_columns(view_count) > 1 ==> (grid_columns(view_count) - 1) * (grid_columns(view_count) - 1) < view_count,
        grid_rows(view_count) >= 1,
        grid_rows(view_count) * grid_columns(view_count) >= view_count,
        view_count >= 1 ==> (grid_rows(view_count) - 1) * grid_columns(view_count) < view_count,
{
    lemma_least_root(view_count, 1);
    let c = grid_columns(view_count);
    let n = view_count;
    let q = (n + c - 1) / (c as int);
    assert(q * c <= n + c - 1 && (q + 1) * c > n + c - 1) by (nonlinear_arith)
        requires
            c >= 1,
            q == (n + c - 1) / (c as int),
    ;
    if q < 1 {
        assert(n == 0) by (nonlinear_arith)
            requires
                c >= 1,
                (q + 1) * c > n + c - 1,
                q < 1,
                q >= 0,
        ;
    } else {
        assert(q * c >= n) by (nonlinear_arith)
            requires
                c >= 1,
                (q + 1) * c > n + c - 1,
        ;
        assert((q - 1) * c < n || n == 0) by (nonlinear_arith)
            requires
                c >= 1,
                q * c <= n + c - 1,
        ;
    }
}
} // verus!
