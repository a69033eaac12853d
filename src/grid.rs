use vstd::prelude::*;

verus! {

/// Number of tiles in row `row` of a staggered grid `width` tiles wide:
/// even rows hold `width`, odd rows one fewer.
pub open spec fn cols_in_row(width: int, row: int) -> int {
    if row % 2 == 0 {
        width
    } else {
        width - 1
    }
}

/// Number of tiles in the rows above `row`.
pub open spec fn row_start(width: int, row: int) -> int {
    row * width - row / 2
}

/// Number of tiles of a `width` x `height` grid.
pub open spec fn tile_count(width: int, height: int) -> int {
    width * height - height / 2
}

/// Whether `(row, col)` is a cell of the grid.
pub open spec fn in_grid(width: int, height: int, row: int, col: int) -> bool {
    0 <= row < height && 0 <= col < cols_in_row(width, row)
}

/// Position of cell `(row, col)` in the row-major tile order.
pub open spec fn index_of(width: int, row: int, col: int) -> int {
    row_start(width, row) + col
}

/// The dimensions for which a map can be built: both positive, and no single column
/// of more than one row.
pub open spec fn valid_dims(width: int, height: int) -> bool {
    width >= 1 && height >= 1 && !(width == 1 && height > 1)
}

/// The cell reached from `(row, col)` through direction slot `slot`, slots in the order
/// NE, E, SE, SW, W, NW (pointy-top, odd rows shifted right).
pub open spec fn step(row: int, col: int, slot: int) -> (int, int) {
    let odd: int = if row % 2 == 0 { 0 } else { 1 };
    if slot == 0 {
        (row - 1, col + odd)
    } else if slot == 1 {
        (row, col + 1)
    } else if slot == 2 {
        (row + 1, col + odd)
    } else if slot == 3 {
        (row + 1, col - 1 + odd)
    } else if slot == 4 {
        (row, col - 1)
    } else {
        (row - 1, col - 1 + odd)
    }
}

/// The slot that points back: `(slot + 3) mod 6`.
pub open spec fn opposite(slot: int) -> int {
    (slot + 3) % 6
}

pub proof fn lemma_step_back(row: int, col: int, slot: int)
    requires
        0 <= slot < 6,
    ensures
        ({
            let (r2, c2) = step(row, col, slot);
            step(r2, c2, opposite(slot)) == (row, col)
        }),
{
}

pub proof fn lemma_row_start_next(width: int, row: int)
    requires
        row >= 0,
    ensures
        row_start(width, row + 1) == row_start(width, row) + cols_in_row(width, row),
{
    assert((row + 1) * width == row * width + width) by (nonlinear_arith);
}

pub proof fn lemma_row_start_monotone(width: int, r1: int, r2: int)
    requires
        width >= 1,
        0 <= r1 <= r2,
    ensures
        row_start(width, r1) <= row_start(width, r2),
    decreases r2 - r1,
{
    if r1 < r2 {
        lemma_row_start_monotone(width, r1, r2 - 1);
        lemma_row_start_next(width, r2 - 1);
    }
}

/// A cell's index lies in its own row's range, hence below the tile count.
pub proof fn lemma_index_in_range(width: int, height: int, row: int, col: int)
    requires
        width >= 1,
        in_grid(width, height, row, col),
    ensures
        row_start(width, row) <= index_of(width, row, col) < row_start(width, row + 1),
        0 <= index_of(width, row, col) < tile_count(width, height),
{
    lemma_row_start_next(width, row);
    lemma_row_start_monotone(width, row + 1, height);
    lemma_row_start_monotone(width, 0, row);
}

/// Distinct cells have distinct indices.
pub proof fn lemma_index_injective(width: int, height: int, r1: int, c1: int, r2: int, c2: int)
    requires
        width >= 1,
        in_grid(width, height, r1, c1),
        in_grid(width, height, r2, c2),
        index_of(width, r1, c1) == index_of(width, r2, c2),
    ensures
        r1 == r2 && c1 == c2,
{
    lemma_index_in_range(width, height, r1, c1);
    lemma_index_in_range(width, height, r2, c2);
    if r1 < r2 {
        lemma_row_start_monotone(width, r1 + 1, r2);
    } else if r2 < r1 {
        lemma_row_start_monotone(width, r2 + 1, r1);
    }
}

} // verus!
