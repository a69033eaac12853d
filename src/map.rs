use vstd::prelude::*;
use crate::coord::{axial_to_offset, OffsetCoord};
use crate::geometry::{center_x, center_y, dist2, distance_squared, row_shift, Bounds, WorldPoint};
use crate::grid::{
    cols_in_row, in_grid, index_of, lemma_index_in_range, lemma_index_injective,
    lemma_row_start_next, row_start, step, tile_count, valid_dims,
};
use crate::shape::{pointy_rectangle, rectangle_cell, rectangle_index};
use crate::terrain::Terrain;

verus! {

/// A terrain value bound to a grid cell.
#[derive(Clone, Copy, Debug, PartialEq, Eq, Hash, Structural)]
pub struct Tile {
    pub coord: OffsetCoord,
    pub terrain: Terrain,
}

/// A tile seen from the map: its terrain, its `(row, col)` cell and its six neighbor
/// slots in the order NE, E, SE, SW, W, NW.
#[derive(Clone, Copy, Debug, PartialEq, Eq)]
pub struct Hex {
    pub terrain: Terrain,
    pub position: (i32, i32),
    pub neighbors: [Option<usize>; 6],
}

/// Why a map could not be built.
#[derive(Clone, Copy, Debug, PartialEq, Eq, Hash, Structural)]
pub enum MapError {
    /// The width or the height is zero.
    ZeroDimension,
    /// A single column of more than one row: every odd row would be empty.
    DegenerateSingleColumn,
}

/// Why a terrain edit was refused.
#[derive(Clone, Copy, Debug, PartialEq, Eq, Hash, Structural)]
pub enum EditError {
    /// The tile index does not name a tile of the map.
    OutOfRange,
}

/// The notification that a tile's terrain was replaced.
#[derive(Clone, Copy, Debug, PartialEq, Eq, Hash, Structural)]
pub struct ChangeRecord {
    pub tile_index: usize,
    pub previous_terrain: Terrain,
    pub new_terrain: Terrain,
}

/// A staggered rectangular hex map: `height` rows, even rows `width` tiles wide and odd
/// rows one tile shorter, laid out pointy-top with circumradius `hex_size`.
pub struct HexMap {
    width: u32,
    height: u32,
    hex_size: u32,
    tiles: Vec<Tile>,
    bounds: Bounds,
}

/// The mathematical content of a [`HexMap`].
pub ghost struct MapView {
    pub width: nat,
    pub height: nat,
    pub hex_size: nat,
    pub tiles: Seq<Tile>,
    pub bounds: Bounds,
}

/// The error, if any, that dimensions `width` x `height` are refused with.
pub open spec fn dims_error(width: int, height: int) -> Option<MapError> {
    if width == 0 || height == 0 {
        Some(MapError::ZeroDimension)
    } else if width == 1 && height > 1 {
        Some(MapError::DegenerateSingleColumn)
    } else {
        None
    }
}

/// Machine limits of a map: its cell count, as the shape generator counts it, and its
/// outer edges, as lattice coordinates, fit in 32-bit signed integers.
pub open spec fn dims_fit(width: int, height: int, hex_size: int) -> bool {
    width * height <= i32::MAX && (2 * width - 1) * hex_size <= i32::MAX && (3 * height - 1)
        * hex_size <= i32::MAX
}

/// Tile `t` holds cell number `i` of a `width` x `height` grid.
pub open spec fn placed_at(width: int, height: int, t: Tile, i: int) -> bool {
    &&& in_grid(width, height, t.coord.row as int, t.coord.col as int)
    &&& index_of(width, t.coord.row as int, t.coord.col as int) == i
}

impl MapView {
    /// The map's invariant: the tiles are exactly the grid's cells in row-major order,
    /// and the cached bounds are those of the layout.
    pub open spec fn wf(self) -> bool {
        &&& valid_dims(self.width as int, self.height as int)
        &&& self.hex_size >= 1
        &&& dims_fit(self.width as int, self.height as int, self.hex_size as int)
        &&& self.tiles.len() == tile_count(self.width as int, self.height as int)
        &&& forall|i: int|
            0 <= i < self.tiles.len() ==> placed_at(
                self.width as int,
                self.height as int,
                #[trigger] self.tiles[i],
                i,
            )
        &&& self.bounds.left == -(self.hex_size as int)
        &&& self.bounds.right == (2 * self.width - 1) * self.hex_size
        &&& self.bounds.bottom == -2 * self.hex_size
        &&& self.bounds.top == (3 * self.height - 1) * self.hex_size
    }

    /// Lattice `x` of tile `i`'s center.
    pub open spec fn center_x(self, i: int) -> int {
        center_x(
            self.tiles[i].coord.row as int,
            self.tiles[i].coord.col as int,
            self.hex_size as int,
        )
    }

    /// Lattice `y` of tile `i`'s center.
    pub open spec fn center_y(self, i: int) -> int {
        center_y(self.tiles[i].coord.row as int, self.hex_size as int)
    }

    /// The tile in direction slot `slot` of tile `i`, if the map has one there.
    pub open spec fn neighbor(self, i: int, slot: int) -> Option<usize> {
        let (r, c) = step(self.tiles[i].coord.row as int, self.tiles[i].coord.col as int, slot);
        if in_grid(self.width as int, self.height as int, r, c) {
            Some(index_of(self.width as int, r, c) as usize)
        } else {
            None
        }
    }

    /// Tile `k` is the tile whose center is closest to `(x, y)`, the lowest index among
    /// equally close ones.
    pub open spec fn is_nearest(self, x: int, y: int, k: int) -> bool {
        &&& 0 <= k < self.tiles.len()
        &&& forall|j: int|
            0 <= j < self.tiles.len() ==> dist2(x, y, self.center_x(k), self.center_y(k))
                <= dist2(x, y, #[trigger] self.center_x(j), self.center_y(j))
        &&& forall|j: int|
            0 <= j < k ==> dist2(x, y, self.center_x(k), self.center_y(k)) < dist2(
                x,
                y,
                #[trigger] self.center_x(j),
                self.center_y(j),
            )
    }
}

impl View for HexMap {
    type V = MapView;

    closed spec fn view(&self) -> MapView {
        MapView {
            width: self.width as nat,
            height: self.height as nat,
            hex_size: self.hex_size as nat,
            tiles: self.tiles@,
            bounds: self.bounds,
        }
    }
}

/// Tiles in row `row` of a grid `width` wide.
fn cols_in_row_exec(width: u32, row: u32) -> (n: u32)
    requires
        width >= 1,
    ensures
        n == cols_in_row(width as int, row as int),
{
    if row % 2 == 0 {
        width
    } else {
        width - 1
    }
}

impl HexMap {
    /// Whether `width` x `height` tiles of circumradius `hex_size` stay within the
    /// machine limits of a map.
    pub fn fits(width: u32, height: u32, hex_size: u32) -> (r: bool)
        ensures
            r == dims_fit(width as int, height as int, hex_size as int),
    {
        let w = width as u128;
        let h = height as u128;
        let s = hex_size as u128;
        assert(w * h <= 0xffff_ffff * 0xffff_ffff) by (nonlinear_arith)
            requires w <= 0xffff_ffff, h <= 0xffff_ffff;
        assert(w >= 1 ==> (2 * w - 1) * s <= 0x2_0000_0000 * 0xffff_ffff) by (nonlinear_arith)
            requires w <= 0xffff_ffff, s <= 0xffff_ffff;
        assert(h >= 1 ==> (3 * h - 1) * s <= 0x3_0000_0000 * 0xffff_ffff) by (nonlinear_arith)
            requires h <= 0xffff_ffff, s <= 0xffff_ffff;
        let max = i32::MAX as u128;
        let area_fits = w * h <= max;
        let across_fits = width == 0 || (2 * w - 1) * s <= max;
        let down_fits = height == 0 || (3 * h - 1) * s <= max;
        proof {
            if width == 0 {
                assert((2 * width - 1) * hex_size <= 0) by (nonlinear_arith)
                    requires width == 0;
            }
            if height == 0 {
                assert((3 * height - 1) * hex_size <= 0) by (nonlinear_arith)
                    requires height == 0;
            }
        }
        area_fits && across_fits && down_fits
    }

    /// Builds the map of `width` x `height` tiles with circumradius `hex_size`, every tile
    /// deep water, in row-major order.
    pub fn try_new(width: u32, height: u32, hex_size: u32) -> (r: Result<HexMap, MapError>)
        requires
            hex_size >= 1,
            valid_dims(width as int, height as int) ==> dims_fit(
                width as int,
                height as int,
                hex_size as int,
            ),
        ensures
            match dims_error(width as int, height as int) {
                Some(e) => r == Err::<HexMap, MapError>(e),
                None => r is Ok,
            },
            r matches Ok(m) ==> {
                &&& m@.wf()
                &&& m@.width == width
                &&& m@.height == height
                &&& m@.hex_size == hex_size
                &&& m@.tiles.len() == width * height - height / 2
                &&& forall|i: int|
                    0 <= i < m@.tiles.len() ==> #[trigger] m@.tiles[i].terrain
                        == Terrain::DeepWater
            },
    {
        if width == 0 || height == 0 {
            return Err(MapError::ZeroDimension);
        }
        if width == 1 && height > 1 {
            return Err(MapError::DegenerateSingleColumn);
        }
        let last_col: i32 = (width - 1) as i32;
        let last_row: i32 = (height - 1) as i32;
        let ghost w = width as int;
        let ghost h = height as int;
        assert(w <= i32::MAX && h <= i32::MAX) by (nonlinear_arith)
            requires w >= 1, h >= 1, w * h <= i32::MAX;
        assert((last_col + 1) * (last_row + 1) == w * h);
        let cells = pointy_rectangle(0, last_col, 0, last_row);
        let mut tiles: Vec<Tile> = Vec::new();
        let mut row: u32 = 0;
        while row < height
            invariant
                valid_dims(w, h),
                dims_fit(w, h, hex_size as int),
                w <= i32::MAX,
                w == width,
                h == height,
                last_col == w - 1,
                last_row == h - 1,
                cells@.len() == w * h,
                forall|y: int, x: int|
                    0 <= y < h && 0 <= x < w ==> #[trigger] cells@[rectangle_index(w, y, x)]
                        == rectangle_cell(0, 0, y, x),
                row <= height,
                tiles@.len() == row_start(w, row as int),
                forall|i: int|
                    0 <= i < tiles@.len() ==> placed_at(w, h, #[trigger] tiles@[i], i)
                        && tiles@[i].terrain == Terrain::DeepWater,
            decreases height - row,
        {
            let cols = cols_in_row_exec(width, row);
            let mut col: u32 = 0;
            while col < width
                invariant
                    valid_dims(w, h),
                    dims_fit(w, h, hex_size as int),
                    w <= i32::MAX,
                    w == width,
                    h == height,
                    last_col == w - 1,
                    last_row == h - 1,
                    cells@.len() == w * h,
                    forall|y: int, x: int|
                        0 <= y < h && 0 <= x < w ==> #[trigger] cells@[rectangle_index(w, y, x)]
                            == rectangle_cell(0, 0, y, x),
                    row < height,
                    cols == cols_in_row(w, row as int),
                    col <= width,
                    tiles@.len() == row_start(w, row as int) + if col <= cols {
                        col as int
                    } else {
                        cols as int
                    },
                    forall|i: int|
                    0 <= i < tiles@.len() ==> placed_at(w, h, #[trigger] tiles@[i], i)
                        && tiles@[i].terrain == Terrain::DeepWater,
                decreases width - col,
            {
                let ghost y = row as int;
                let ghost x = col as int;
                assert(y * w + x < w * h) by (nonlinear_arith)
                    requires 0 <= y < h, 0 <= x < w;
                assert(cells@[rectangle_index(w, y, x)] == rectangle_cell(0, 0, y, x));
                let k: usize = row as usize * width as usize + col as usize;
                let cell = cells[k];
                let c = axial_to_offset(cell);
                assert(c.row == y && c.col == x);
                if c.col < cols as i32 {
                    let ghost before = tiles@;
                    assert(index_of(w, y, x) == before.len());
                    tiles.push(Tile { coord: c, terrain: Terrain::default() });
                    assert forall|i: int| 0 <= i < tiles@.len() implies placed_at(w, h, #[trigger] tiles@[i], i)
                        && tiles@[i].terrain == Terrain::DeepWater by {
                        if i < before.len() {
                            assert(tiles@[i] == before[i]);
                        }
                    }
                }
                col += 1;
            }
            proof {
                lemma_row_start_next(w, row as int);
            }
            row += 1;
        }
        let s = hex_size as i64;
        assert((3 * height - 1) * hex_size <= i32::MAX && (2 * width - 1) * hex_size <= i32::MAX);
        assert(2 * hex_size <= i32::MAX) by (nonlinear_arith)
            requires (3 * height - 1) * hex_size <= i32::MAX, height >= 1, hex_size >= 1;
        let bounds = Bounds {
            left: -(hex_size as i32),
            right: ((2 * width as i64 - 1) * s) as i32,
            top: ((3 * height as i64 - 1) * s) as i32,
            bottom: (-2 * s) as i32,
        };
        assert(tiles@.len() == width * height - height / 2) by (nonlinear_arith)
            requires tiles@.len() == row_start(w, h), w == width, h == height;
        Ok(HexMap { width, height, hex_size, tiles, bounds })
    }

    /// Builds the map of `width` x `height` tiles with the default circumradius of one
    /// world unit.
    pub fn new(width: u32, height: u32) -> (r: Result<HexMap, MapError>)
        requires
            valid_dims(width as int, height as int) ==> dims_fit(width as int, height as int, 1),
        ensures
            match dims_error(width as int, height as int) {
                Some(e) => r == Err::<HexMap, MapError>(e),
                None => r is Ok,
            },
            r matches Ok(m) ==> {
                &&& m@.wf()
                &&& m@.width == width
                &&& m@.height == height
                &&& m@.hex_size == 1
                &&& forall|i: int|
                    0 <= i < m@.tiles.len() ==> #[trigger] m@.tiles[i].terrain
                        == Terrain::DeepWater
            },
    {
        HexMap::try_new(width, height, 1)
    }
}


/// The tile at the index of a cell of the grid is that cell.
pub proof fn lemma_tile_of_cell(m: MapView, row: int, col: int)
    requires
        m.wf(),
        in_grid(m.width as int, m.height as int, row, col),
    ensures
        0 <= index_of(m.width as int, row, col) < m.tiles.len(),
        m.tiles[index_of(m.width as int, row, col)].coord.row == row,
        m.tiles[index_of(m.width as int, row, col)].coord.col == col,
{
    let k = index_of(m.width as int, row, col);
    lemma_index_in_range(m.width as int, m.height as int, row, col);
    let t = m.tiles[k];
    assert(placed_at(m.width as int, m.height as int, t, k));
    lemma_index_injective(
        m.width as int,
        m.height as int,
        t.coord.row as int,
        t.coord.col as int,
        row,
        col,
    );
}

/// A valid map has at least one tile.
pub proof fn lemma_map_nonempty(m: MapView)
    requires
        m.wf(),
    ensures
        m.tiles.len() >= 1,
{
    lemma_index_in_range(m.width as int, m.height as int, 0, 0);
}

/// The world extent of a valid map bounds every cell coordinate it can hold.
proof fn lemma_cell_extent(m: MapView, row: int, col: int)
    requires
        m.wf(),
        in_grid(m.width as int, m.height as int, row, col),
    ensures
        0 <= center_x(row, col, m.hex_size as int) <= (2 * m.width - 2) * m.hex_size,
        0 <= center_y(row, m.hex_size as int) <= 3 * (m.height - 1) * m.hex_size,
        m.width <= i32::MAX,
        m.height <= i32::MAX,
{
    let w = m.width as int;
    let h = m.height as int;
    let s = m.hex_size as int;
    assert(2 * col + row_shift(row) <= 2 * w - 2);
    assert(0 <= (2 * col + row_shift(row)) * s <= (2 * w - 2) * s) by (nonlinear_arith)
        requires 0 <= 2 * col + row_shift(row) <= 2 * w - 2, s >= 1;
    assert(0 <= 3 * row * s <= 3 * (h - 1) * s) by (nonlinear_arith)
        requires 0 <= row <= h - 1, s >= 1;
    assert(w <= i32::MAX && h <= i32::MAX) by (nonlinear_arith)
        requires w >= 1, h >= 1, w * h <= i32::MAX;
}

impl HexMap {
    /// Desired number of tiles on an even row.
    pub fn width(&self) -> (r: u32)
        ensures
            r == self@.width,
    {
        self.width
    }

    /// Number of rows.
    pub fn height(&self) -> (r: u32)
        ensures
            r == self@.height,
    {
        self.height
    }

    /// The circumradius every placement derives from.
    pub fn hex_size(&self) -> (r: u32)
        ensures
            r == self@.hex_size,
    {
        self.hex_size
    }

    /// The tiles, in tile-index order.
    pub fn tiles(&self) -> (r: &Vec<Tile>)
        ensures
            r@ == self@.tiles,
    {
        &self.tiles
    }

    /// Number of tiles.
    pub fn len(&self) -> (r: usize)
        ensures
            r == self@.tiles.len(),
    {
        self.tiles.len()
    }

    /// The rectangle `(left, right, top, bottom)` around every tile: half a column step
    /// beyond the outermost centers sideways and one circumradius beyond them vertically.
    pub fn bounds(&self) -> (r: Bounds)
        requires
            self@.wf(),
        ensures
            r == self@.bounds,
            r.left == -(self@.hex_size as int),
            r.right == (2 * self@.width - 1) * self@.hex_size,
            r.bottom == -2 * self@.hex_size,
            r.top == (3 * self@.height - 1) * self@.hex_size,
    {
        self.bounds
    }

    /// The center of `tile`'s cell: a function of its row, its column and the map's
    /// circumradius alone.
    pub fn tile_to_world_pos(&self, tile: &Tile) -> (r: WorldPoint)
        requires
            self@.wf(),
            in_grid(
                self@.width as int,
                self@.height as int,
                tile.coord.row as int,
                tile.coord.col as int,
            ),
        ensures
            r.x == center_x(tile.coord.row as int, tile.coord.col as int, self@.hex_size as int),
            r.y == center_y(tile.coord.row as int, self@.hex_size as int),
    {
        proof {
            lemma_cell_extent(self@, tile.coord.row as int, tile.coord.col as int);
            assert((2 * self@.width - 2) * self@.hex_size <= (2 * self@.width - 1) * self@.hex_size)
                by (nonlinear_arith)
                requires self@.hex_size >= 1;
            assert(3 * (self@.height - 1) * self@.hex_size <= (3 * self@.height - 1) * self@.hex_size)
                by (nonlinear_arith)
                requires self@.hex_size >= 1;
        }
        let row = tile.coord.row as i64;
        let col = tile.coord.col as i64;
        let s = self.hex_size as i64;
        let shift: i64 = if row % 2 == 0 { 0 } else { 1 };
        let x = (2 * col + shift) * s;
        let y = 3 * row * s;
        WorldPoint { x: x as i32, y: y as i32 }
    }

    /// The center of tile `index`.
    pub fn tile_to_world(&self, index: usize) -> (r: WorldPoint)
        requires
            self@.wf(),
            index < self@.tiles.len(),
        ensures
            r.x == self@.center_x(index as int),
            r.y == self@.center_y(index as int),
    {
        proof {
            assert(placed_at(self@.width as int, self@.height as int, self@.tiles[index as int], index as int));
        }
        self.tile_to_world_pos(&self.tiles[index])
    }
}


/// What painting tile `index` with `terrain` reports: the record of the change, or
/// `OutOfRange` when no tile has that index.
pub open spec fn paint_result(tiles: Seq<Tile>, index: int, terrain: Terrain) -> Result<
    ChangeRecord,
    EditError,
> {
    if 0 <= index < tiles.len() {
        Ok(
            ChangeRecord {
                tile_index: index as usize,
                previous_terrain: tiles[index].terrain,
                new_terrain: terrain,
            },
        )
    } else {
        Err(EditError::OutOfRange)
    }
}

/// The tiles after painting tile `index` with `terrain`; unchanged when no tile has that
/// index.
pub open spec fn painted(tiles: Seq<Tile>, index: int, terrain: Terrain) -> Seq<Tile> {
    if 0 <= index < tiles.len() {
        tiles.update(index, Tile { coord: tiles[index].coord, terrain })
    } else {
        tiles
    }
}

impl HexMap {
    /// Index of cell `(row, col)`, if the grid has that cell.
    fn cell_index(&self, row: i64, col: i64) -> (r: Option<usize>)
        requires
            self@.wf(),
            -1 <= row <= i32::MAX,
            -1 <= col <= i32::MAX,
        ensures
            r == (if in_grid(self@.width as int, self@.height as int, row as int, col as int) {
                Some(index_of(self@.width as int, row as int, col as int) as usize)
            } else {
                None
            }),
    {
        if row < 0 || row >= self.height as i64 || col < 0 {
            return None;
        }
        let cols = cols_in_row_exec(self.width, row as u32) as i64;
        if col >= cols {
            return None;
        }
        proof {
            lemma_index_in_range(self@.width as int, self@.height as int, row as int, col as int);
            assert(row * self@.width <= self@.width * self@.height) by (nonlinear_arith)
                requires 0 <= row < self@.height;
            assert(tile_count(self@.width as int, self@.height as int) <= self@.width * self@.height);
        }
        let r = row as usize;
        let w = self.width as usize;
        assert(r * w <= self@.width * self@.height);
        assert(r <= r * w) by (nonlinear_arith)
            requires w >= 1;
        let start = r * w - r / 2;
        assert(start + col == index_of(self@.width as int, row as int, col as int));
        Some(start + col as usize)
    }

    /// The six neighbors of tile `index` in slot order NE, E, SE, SW, W, NW; a slot is
    /// `None` where the map ends.
    pub fn neighbors(&self, index: usize) -> (r: [Option<usize>; 6])
        requires
            self@.wf(),
            index < self@.tiles.len(),
        ensures
            forall|slot: int| 0 <= slot < 6 ==> #[trigger] r@[slot] == self@.neighbor(index as int, slot),
    {
        let c = self.tiles[index].coord;
        proof {
            assert(placed_at(self@.width as int, self@.height as int, self@.tiles[index as int], index as int));
            lemma_cell_extent(self@, c.row as int, c.col as int);
        }
        let row = c.row as i64;
        let col = c.col as i64;
        let odd: i64 = if row % 2 == 0 { 0 } else { 1 };
        let r = [
            self.cell_index(row - 1, col + odd),
            self.cell_index(row, col + 1),
            self.cell_index(row + 1, col + odd),
            self.cell_index(row + 1, col - 1 + odd),
            self.cell_index(row, col - 1),
            self.cell_index(row - 1, col - 1 + odd),
        ];
        assert forall|slot: int| 0 <= slot < 6 implies #[trigger] r@[slot] == self@.neighbor(index as int, slot) by {
            if slot == 0 {
            } else if slot == 1 {
            } else if slot == 2 {
            } else if slot == 3 {
            } else if slot == 4 {
            } else {
            }
        }
        r
    }

    /// The tile whose center is closest to `p`, the lowest index among equally close
    /// ones; `None` only for a map without tiles.
    pub fn nearest_tile(&self, p: WorldPoint) -> (r: Option<usize>)
        requires
            self@.wf(),
        ensures
            r is None <==> self@.tiles.len() == 0,
            r matches Some(k) ==> self@.is_nearest(p.x as int, p.y as int, k as int),
    {
        let n = self.tiles.len();
        let mut best: Option<usize> = None;
        let mut best_d: i128 = 0;
        let mut i: usize = 0;
        while i < n
            invariant
                self@.wf(),
                n == self@.tiles.len(),
                i <= n,
                best is None <==> i == 0,
                best matches Some(k) ==> {
                    &&& k < i
                    &&& best_d == dist2(p.x as int, p.y as int, self@.center_x(k as int), self@.center_y(k as int))
                    &&& forall|j: int| 0 <= j < i ==> best_d <= dist2(p.x as int, p.y as int, #[trigger] self@.center_x(j), self@.center_y(j))
                    &&& forall|j: int| 0 <= j < k ==> best_d < dist2(p.x as int, p.y as int, #[trigger] self@.center_x(j), self@.center_y(j))
                },
            decreases n - i,
        {
            let c = self.tile_to_world(i);
            let d = distance_squared(p, c);
            match best {
                None => {
                    best = Some(i);
                    best_d = d;
                }
                Some(k) => {
                    if d < best_d {
                        best = Some(i);
                        best_d = d;
                    }
                }
            }
            i += 1;
        }
        best
    }

    /// Replaces the terrain of tile `index` and reports the change; an index past the last
    /// tile is refused and leaves the map as it was. Painting a tile with the terrain it
    /// already has still succeeds and reports it.
    pub fn set_terrain(&mut self, index: usize, terrain: Terrain) -> (r: Result<ChangeRecord, EditError>)
        requires
            old(self)@.wf(),
        ensures
            r == paint_result(old(self)@.tiles, index as int, terrain),
            final(self)@.tiles == painted(old(self)@.tiles, index as int, terrain),
            final(self)@.width == old(self)@.width,
            final(self)@.height == old(self)@.height,
            final(self)@.hex_size == old(self)@.hex_size,
            final(self)@.bounds == old(self)@.bounds,
            final(self)@.wf(),
            index < old(self)@.tiles.len() ==> final(self)@.tiles[index as int].terrain == terrain,
    {
        if index >= self.tiles.len() {
            return Err(EditError::OutOfRange);
        }
        let previous = self.tiles[index];
        self.tiles.set(index, Tile { coord: previous.coord, terrain });
        proof {
            assert forall|i: int| 0 <= i < self@.tiles.len() implies placed_at(
                self@.width as int,
                self@.height as int,
                #[trigger] self@.tiles[i],
                i,
            ) by {
                assert(placed_at(self@.width as int, self@.height as int, old(self)@.tiles[i], i));
            }
        }
        Ok(ChangeRecord { tile_index: index, previous_terrain: previous.terrain, new_terrain: terrain })
    }
}


impl HexMap {
    /// Tile `index` together with its neighbor slots.
    pub fn hex(&self, index: usize) -> (r: Hex)
        requires
            self@.wf(),
            index < self@.tiles.len(),
        ensures
            r.terrain == self@.tiles[index as int].terrain,
            r.position == (self@.tiles[index as int].coord.row, self@.tiles[index as int].coord.col),
            forall|slot: int| 0 <= slot < 6 ==> #[trigger] r.neighbors@[slot] == self@.neighbor(index as int, slot),
    {
        let t = self.tiles[index];
        Hex { terrain: t.terrain, position: (t.coord.row, t.coord.col), neighbors: self.neighbors(index) }
    }
}


/// Sum of the lattice `x` of the centers of the first `n` tiles.
pub open spec fn sum_center_x(m: MapView, n: int) -> int
    decreases n,
{
    if n <= 0 {
        0
    } else {
        sum_center_x(m, n - 1) + m.center_x(n - 1)
    }
}

/// Sum of the lattice `y` of the centers of the first `n` tiles.
pub open spec fn sum_center_y(m: MapView, n: int) -> int
    decreases n,
{
    if n <= 0 {
        0
    } else {
        sum_center_y(m, n - 1) + m.center_y(n - 1)
    }
}

impl HexMap {
    /// The sums of the tile centers' lattice coordinates; divided by the tile count they
    /// give the centroid of the map.
    pub fn center_sums(&self) -> (r: (i64, i64))
        requires
            self@.wf(),
        ensures
            r.0 == sum_center_x(self@, self@.tiles.len() as int),
            r.1 == sum_center_y(self@, self@.tiles.len() as int),
    {
        let n = self.tiles.len();
        let mut sx: i64 = 0;
        let mut sy: i64 = 0;
        let mut i: usize = 0;
        proof {
            assert(n <= i32::MAX) by (nonlinear_arith)
                requires n == self@.width * self@.height - self@.height / 2, self@.height >= 1, self@.width >= 1,
                    self@.width * self@.height <= i32::MAX;
        }
        while i < n
            invariant
                self@.wf(),
                n == self@.tiles.len(),
                n <= i32::MAX,
                i <= n,
                sx == sum_center_x(self@, i as int),
                sy == sum_center_y(self@, i as int),
                0 <= sx <= i * (i32::MAX as int),
                0 <= sy <= i * (i32::MAX as int),
            decreases n - i,
        {
            let c = self.tile_to_world(i);
            proof {
                assert(placed_at(self@.width as int, self@.height as int, self@.tiles[i as int], i as int));
                lemma_cell_extent(self@, self@.tiles[i as int].coord.row as int, self@.tiles[i as int].coord.col as int);
                assert(i * (i32::MAX as int) + i32::MAX <= (i32::MAX as int) * (i32::MAX as int)) by (nonlinear_arith)
                    requires i < i32::MAX;
            }
            sx = sx + c.x as i64;
            sy = sy + c.y as i64;
            i += 1;
        }
        (sx, sy)
    }
}

} // verus!
