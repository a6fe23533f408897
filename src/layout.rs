//! Where the bodies of the default scene start: a square grid of cells.
use vstd::prelude::*;

verus! {

/// First cell coordinate of the grid, on both axes.
pub const GRID_LOW: i32 = -10;

/// One past the last cell coordinate of the grid, on both axes.
pub const GRID_HIGH: i32 = 10;

/// Distance in world units between neighbouring cells.
pub const GRID_SPACING: i32 = 30;

/// Number of cells along one side of the grid.
pub open spec fn side() -> int {
    GRID_HIGH - GRID_LOW
}

/// The `k`-th cell in spawn order: rows by the first coordinate, and within a
/// row by the second.
pub open spec fn cell_at(k: int) -> (i32, i32) {
    ((GRID_LOW + k / side()) as i32, (GRID_LOW + k % side()) as i32)
}

/// Every cell `(i, j)` with `GRID_LOW <= i, j < GRID_HIGH`, in spawn order.
pub fn spawn_cells() -> (r: Vec<(i32, i32)>)
    ensures
        r@.len() == side() * side(),
        forall|k: int| 0 <= k < r@.len() ==> #[trigger] r@[k] == cell_at(k),
{
    let mut r: Vec<(i32, i32)> = Vec::new();
    let mut i: i32 = GRID_LOW;
    while i < GRID_HIGH
        invariant
            GRID_LOW <= i <= GRID_HIGH,
            r@.len() == (i - GRID_LOW) * side(),
            forall|k: int| 0 <= k < r@.len() ==> #[trigger] r@[k] == cell_at(k),
        decreases GRID_HIGH - i,
    {
        let mut j: i32 = GRID_LOW;
        while j < GRID_HIGH
            invariant
                GRID_LOW <= i < GRID_HIGH,
                GRID_LOW <= j <= GRID_HIGH,
                r@.len() == (i - GRID_LOW) * side() + (j - GRID_LOW),
                forall|k: int| 0 <= k < r@.len() ==> #[trigger] r@[k] == cell_at(k),
            decreases GRID_HIGH - j,
        {
            let ghost k = r@.len() as int;
            assert(k / side() == i - GRID_LOW && k % side() == j - GRID_LOW) by (nonlinear_arith)
                requires
                    k == (i - GRID_LOW) * side() + (j - GRID_LOW),
                    0 <= j - GRID_LOW < side(),
                    side() == 20,
            ;
            r.push((i, j));
            j = j + 1;
        }
        i = i + 1;
    }
    r
}

/// World position of the centre of cell `(i, j)`.
pub fn cell_position(cell: (i32, i32)) -> (r: (i32, i32))
    requires
        i32::MIN <= cell.0 * GRID_SPACING <= i32::MAX,
        i32::MIN <= cell.1 * GRID_SPACING <= i32::MAX,
    ensures
        r == ((cell.0 * GRID_SPACING) as i32, (cell.1 * GRID_SPACING) as i32),
{
    (cell.0 * GRID_SPACING, cell.1 * GRID_SPACING)
}

} // verus!
