use vstd::prelude::*;

verus! {

/// A point of the map plane in exact lattice units. `x` counts steps of `sqrt(3) / 2`
/// world units and `y` steps of `1 / 2` world unit, so every tile center has integer
/// coordinates and `4 * distance^2 == 3 * dx^2 + dy^2`. `y` grows with the row number;
/// a presentation that draws row 0 at the top negates it on both ways in and out.
#[derive(Clone, Copy, Debug, PartialEq, Eq, Hash, Structural)]
pub struct WorldPoint {
    pub x: i32,
    pub y: i32,
}

/// An axis-aligned rectangle of the map plane in the lattice units of [`WorldPoint`].
#[derive(Clone, Copy, Debug, PartialEq, Eq, Hash, Structural)]
pub struct Bounds {
    pub left: i32,
    pub right: i32,
    pub top: i32,
    pub bottom: i32,
}

/// 1 for odd rows, 0 for even ones.
pub open spec fn row_shift(row: int) -> int {
    if row % 2 == 0 {
        0
    } else {
        1
    }
}

/// Lattice `x` of the center of cell `(row, col)` for circumradius `hex_size`:
/// `col * sqrt(3) * hex_size`, plus half of that step on odd rows.
pub open spec fn center_x(row: int, col: int, hex_size: int) -> int {
    (2 * col + row_shift(row)) * hex_size
}

/// Lattice `y` of the center of a cell of row `row`: `row * 1.5 * hex_size`.
pub open spec fn center_y(row: int, hex_size: int) -> int {
    3 * row * hex_size
}

/// Four times the squared Euclidean distance between two lattice points.
pub open spec fn dist2(ax: int, ay: int, bx: int, by: int) -> int {
    3 * (ax - bx) * (ax - bx) + (ay - by) * (ay - by)
}

/// Four times the squared distance between two points, computed exactly.
pub fn distance_squared(a: WorldPoint, b: WorldPoint) -> (d: i128)
    ensures
        d == dist2(a.x as int, a.y as int, b.x as int, b.y as int),
        d >= 0,
{
    let dx: i128 = a.x as i128 - b.x as i128;
    let dy: i128 = a.y as i128 - b.y as i128;
    assert(0 <= dx * dx <= 0x1_0000_0000 * 0x1_0000_0000) by (nonlinear_arith)
        requires -0x1_0000_0000 <= dx <= 0x1_0000_0000;
    assert(0 <= dy * dy <= 0x1_0000_0000 * 0x1_0000_0000) by (nonlinear_arith)
        requires -0x1_0000_0000 <= dy <= 0x1_0000_0000;
    assert(3 * dx * dx == 3 * (dx * dx)) by (nonlinear_arith);
    3 * (dx * dx) + dy * dy
}

impl Bounds {
    /// Twice the rectangle's center, `(left + right, bottom + top)`, which stays exact
    /// where the center itself falls between lattice points.
    pub fn doubled_center(&self) -> (r: (i64, i64))
        ensures
            r.0 == self.left + self.right,
            r.1 == self.bottom + self.top,
    {
        (self.left as i64 + self.right as i64, self.bottom as i64 + self.top as i64)
    }
}

} // verus!
