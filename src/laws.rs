use vstd::prelude::*;
use crate::geometry::{center_x, center_y, dist2, row_shift};
use crate::grid::{cols_in_row, in_grid, lemma_index_injective, lemma_step_back, opposite, step};
use crate::map::{lemma_tile_of_cell, paint_result, painted, placed_at, MapView, Tile};
use crate::terrain::Terrain;

verus! {

/// Every tile of a map lies inside the grid: `0 <= row < height` and
/// `0 <= col < cols_in_row(row)`.
pub proof fn lemma_tiles_in_grid(m: MapView, i: int)
    requires
        m.wf(),
        0 <= i < m.tiles.len(),
    ensures
        0 <= m.tiles[i].coord.row < m.height,
        0 <= m.tiles[i].coord.col < cols_in_row(m.width as int, m.tiles[i].coord.row as int),
{
    assert(placed_at(m.width as int, m.height as int, m.tiles[i], i));
}

/// No two tiles of a map share a cell.
pub proof fn lemma_coords_unique(m: MapView, i: int, j: int)
    requires
        m.wf(),
        0 <= i < m.tiles.len(),
        0 <= j < m.tiles.len(),
        i != j,
    ensures
        m.tiles[i].coord != m.tiles[j].coord,
{
    assert(placed_at(m.width as int, m.height as int, m.tiles[i], i));
    assert(placed_at(m.width as int, m.height as int, m.tiles[j], j));
}

/// Adjacency is symmetric: if tile `j` is in slot `slot` of tile `i`, then tile `i` is in
/// slot `(slot + 3) mod 6` of tile `j`.
pub proof fn lemma_neighbors_symmetric(m: MapView, i: int, slot: int)
    requires
        m.wf(),
        0 <= i < m.tiles.len(),
        0 <= slot < 6,
    ensures
        m.neighbor(i, slot) matches Some(j) ==> {
            &&& 0 <= j < m.tiles.len()
            &&& m.neighbor(j as int, opposite(slot)) == Some(i as usize)
        },
{
    let t = m.tiles[i];
    assert(placed_at(m.width as int, m.height as int, t, i));
    let (r, c) = step(t.coord.row as int, t.coord.col as int, slot);
    if in_grid(m.width as int, m.height as int, r, c) {
        lemma_tile_of_cell(m, r, c);
        lemma_step_back(t.coord.row as int, t.coord.col as int, slot);
    }
}

/// Two distinct tiles of a map have distinct centers.
pub proof fn lemma_centers_distinct(m: MapView, i: int, j: int)
    requires
        m.wf(),
        0 <= i < m.tiles.len(),
        0 <= j < m.tiles.len(),
        m.center_x(i) == m.center_x(j),
        m.center_y(i) == m.center_y(j),
    ensures
        i == j,
{
    let a = m.tiles[i].coord;
    let b = m.tiles[j].coord;
    let s = m.hex_size as int;
    assert(placed_at(m.width as int, m.height as int, m.tiles[i], i));
    assert(placed_at(m.width as int, m.height as int, m.tiles[j], j));
    assert(a.row == b.row) by (nonlinear_arith)
        requires 3 * (a.row as int) * s == 3 * (b.row as int) * s, s >= 1;
    assert(2 * a.col + row_shift(a.row as int) == 2 * b.col + row_shift(b.row as int))
        by (nonlinear_arith)
        requires
            (2 * a.col + row_shift(a.row as int)) * s == (2 * b.col + row_shift(b.row as int)) * s,
            s >= 1;
    if i != j {
        lemma_coords_unique(m, i, j);
    }
}

/// Hit-testing a tile's own center finds that tile and no other.
pub proof fn lemma_nearest_at_center(m: MapView, i: int, k: int)
    requires
        m.wf(),
        0 <= i < m.tiles.len(),
    ensures
        m.is_nearest(m.center_x(i), m.center_y(i), k) <==> k == i,
{
    let x = m.center_x(i);
    let y = m.center_y(i);
    assert(dist2(x, y, x, y) == 0);
    assert forall|a: int, b: int| #[trigger] dist2(x, y, a, b) >= 0 by {
        assert(3 * (x - a) * (x - a) + (y - b) * (y - b) >= 0) by (nonlinear_arith);
    }
    if m.is_nearest(x, y, k) {
        let d = dist2(x, y, m.center_x(k), m.center_y(k));
        assert(d <= dist2(x, y, m.center_x(i), m.center_y(i)));
        let dx = x - m.center_x(k);
        let dy = y - m.center_y(k);
        assert(dx == 0 && dy == 0) by (nonlinear_arith)
            requires 3 * dx * dx + dy * dy <= 0;
        lemma_centers_distinct(m, i, k);
    }
    if k == i {
        assert forall|j: int| 0 <= j < i implies dist2(x, y, x, y) < dist2(
            x,
            y,
            #[trigger] m.center_x(j),
            m.center_y(j),
        ) by {
            let dx = x - m.center_x(j);
            let dy = y - m.center_y(j);
            if dist2(x, y, m.center_x(j), m.center_y(j)) <= 0 {
                assert(dx == 0 && dy == 0) by (nonlinear_arith)
                    requires 3 * dx * dx + dy * dy <= 0;
                lemma_centers_distinct(m, i, j);
            }
        }
        assert forall|j: int| 0 <= j < m.tiles.len() implies dist2(x, y, x, y) <= dist2(
            x,
            y,
            #[trigger] m.center_x(j),
            m.center_y(j),
        ) by {}
    }
}

/// The cached bounds strictly contain every tile center.
pub proof fn lemma_bounds_contain_centers(m: MapView, i: int)
    requires
        m.wf(),
        0 <= i < m.tiles.len(),
    ensures
        m.bounds.left < m.center_x(i) < m.bounds.right,
        m.bounds.bottom < m.center_y(i) < m.bounds.top,
{
    let t = m.tiles[i];
    let row = t.coord.row as int;
    let col = t.coord.col as int;
    let w = m.width as int;
    let h = m.height as int;
    let s = m.hex_size as int;
    assert(placed_at(w, h, t, i));
    assert(0 <= 2 * col + row_shift(row) <= 2 * w - 2);
    assert(0 <= (2 * col + row_shift(row)) * s <= (2 * w - 2) * s) by (nonlinear_arith)
        requires 0 <= 2 * col + row_shift(row) <= 2 * w - 2, s >= 1;
    assert((2 * w - 2) * s < (2 * w - 1) * s) by (nonlinear_arith)
        requires s >= 1;
    assert(0 <= 3 * row * s < (3 * h - 1) * s) by (nonlinear_arith)
        requires 0 <= row <= h - 1, s >= 1;
}

/// The cached bounds are the extreme tile centers widened by half a column step
/// sideways and by one circumradius vertically: tiles reach each of those extremes.
pub proof fn lemma_bounds_attained(m: MapView)
    requires
        m.wf(),
    ensures
        exists|i: int| 0 <= i < m.tiles.len() && #[trigger] m.center_x(i) == m.bounds.left + m.hex_size,
        exists|i: int| 0 <= i < m.tiles.len() && #[trigger] m.center_x(i) == m.bounds.right - m.hex_size,
        exists|i: int| 0 <= i < m.tiles.len() && #[trigger] m.center_y(i) == m.bounds.bottom + 2 * m.hex_size,
        exists|i: int| 0 <= i < m.tiles.len() && #[trigger] m.center_y(i) == m.bounds.top - 2 * m.hex_size,
{
    let w = m.width as int;
    let h = m.height as int;
    let s = m.hex_size as int;
    lemma_tile_of_cell(m, 0, 0);
    lemma_tile_of_cell(m, 0, w - 1);
    lemma_tile_of_cell(m, h - 1, 0);
    let first = crate::grid::index_of(w, 0, 0);
    let last_col = crate::grid::index_of(w, 0, w - 1);
    let last_row = crate::grid::index_of(w, h - 1, 0);
    assert(m.center_x(first) == center_x(0, 0, s));
    assert(center_x(0, w - 1, s) == (2 * w - 2) * s);
    assert((2 * w - 2) * s == (2 * w - 1) * s - s) by (nonlinear_arith);
    assert(m.center_x(last_col) == m.bounds.right - m.hex_size);
    assert(3 * 0 * s == 0) by (nonlinear_arith);
    assert(m.center_y(first) == 0);
    assert(3 * (h - 1) * s == (3 * h - 1) * s - 2 * s) by (nonlinear_arith);
    assert(m.center_y(last_row) == center_y(h - 1, s));
}

/// Reading tile `index` after painting it with `terrain` gives `terrain` back.
pub proof fn lemma_paint_then_read(tiles: Seq<Tile>, index: int, terrain: Terrain)
    requires
        0 <= index < tiles.len(),
    ensures
        painted(tiles, index, terrain)[index].terrain == terrain,
        painted(tiles, index, terrain).len() == tiles.len(),
{
}

/// Painting the same tile with the same terrain twice changes nothing the second time,
/// and the two reports differ at most in the previous terrain, which the second time is
/// the painted one.
pub proof fn lemma_repaint_idempotent(tiles: Seq<Tile>, index: int, terrain: Terrain)
    ensures
        painted(painted(tiles, index, terrain), index, terrain) == painted(tiles, index, terrain),
        paint_result(painted(tiles, index, terrain), index, terrain) matches Ok(second) ==> {
            &&& paint_result(tiles, index, terrain) matches Ok(first)
            &&& second.tile_index == first.tile_index
            &&& second.new_terrain == first.new_terrain
            &&& second.previous_terrain == terrain
        },
        paint_result(painted(tiles, index, terrain), index, terrain) is Err <==> paint_result(
            tiles,
            index,
            terrain,
        ) is Err,
{
    if 0 <= index < tiles.len() {
        let once = painted(tiles, index, terrain);
        assert(painted(once, index, terrain) =~= once);
    }
}


/// At most one tile is the nearest to a point: the hit-test result is determined.
pub proof fn lemma_nearest_unique(m: MapView, x: int, y: int, k1: int, k2: int)
    requires
        m.is_nearest(x, y, k1),
        m.is_nearest(x, y, k2),
    ensures
        k1 == k2,
{
    assert(dist2(x, y, m.center_x(k1), m.center_y(k1)) <= dist2(x, y, m.center_x(k2), m.center_y(k2)));
    assert(dist2(x, y, m.center_x(k2), m.center_y(k2)) <= dist2(x, y, m.center_x(k1), m.center_y(k1)));
}


/// Every tile center lies at least half a column step inside the bounds sideways and at
/// least one circumradius inside them vertically. With the extremes being reached, the
/// bounds are the extreme centers widened by those margins, and the bounds' center is the
/// midpoint of the extreme centers.
pub proof fn lemma_centers_within_margins(m: MapView)
    requires
        m.wf(),
    ensures
        forall|i: int|
            0 <= i < m.tiles.len() ==> m.bounds.left + m.hex_size <= #[trigger] m.center_x(i)
                <= m.bounds.right - m.hex_size && m.bounds.bottom + 2 * m.hex_size <= m.center_y(i)
                <= m.bounds.top - 2 * m.hex_size,
{
    assert forall|i: int|
        0 <= i < m.tiles.len() implies m.bounds.left + m.hex_size <= #[trigger] m.center_x(i)
            <= m.bounds.right - m.hex_size && m.bounds.bottom + 2 * m.hex_size <= m.center_y(i)
            <= m.bounds.top - 2 * m.hex_size by {
        let t = m.tiles[i];
        let row = t.coord.row as int;
        let col = t.coord.col as int;
        let w = m.width as int;
        let h = m.height as int;
        let s = m.hex_size as int;
        assert(placed_at(w, h, t, i));
        assert(0 <= 2 * col + row_shift(row) <= 2 * w - 2);
        assert(0 <= (2 * col + row_shift(row)) * s <= (2 * w - 2) * s) by (nonlinear_arith)
            requires 0 <= 2 * col + row_shift(row) <= 2 * w - 2, s >= 1;
        assert((2 * w - 2) * s == (2 * w - 1) * s - s) by (nonlinear_arith);
        assert(0 <= 3 * row * s <= 3 * (h - 1) * s) by (nonlinear_arith)
            requires 0 <= row <= h - 1, s >= 1;
        assert(3 * (h - 1) * s == (3 * h - 1) * s - 2 * s) by (nonlinear_arith);
    }
}

} // verus!
