use vstd::prelude::*;

verus! {

/// A hex position in offset ("odd-r") form: odd rows sit half a hex to the right.
#[derive(Clone, Copy, Debug, PartialEq, Eq, Hash, Structural)]
pub struct OffsetCoord {
    pub row: i32,
    pub col: i32,
}

/// The same position in axial form: `q` is the axial column, `r` the axial row.
#[derive(Clone, Copy, Debug, PartialEq, Eq, Hash, Structural)]
pub struct AxialCoord {
    pub q: i32,
    pub r: i32,
}

/// `floor(r / 2)`, which equals `(r - (r AND 1)) / 2` for every integer `r`.
pub open spec fn half_down(r: int) -> int {
    r / 2
}

/// Offset column of an axial position.
pub open spec fn col_of_axial(a: AxialCoord) -> int {
    a.q + half_down(a.r as int)
}

/// Axial column of an offset position.
pub open spec fn q_of_offset(c: OffsetCoord) -> int {
    c.col - half_down(c.row as int)
}

pub open spec fn axial_in_range(a: AxialCoord) -> bool {
    i32::MIN <= col_of_axial(a) <= i32::MAX
}

pub open spec fn offset_in_range(c: OffsetCoord) -> bool {
    i32::MIN <= q_of_offset(c) <= i32::MAX
}

/// `floor(r / 2)` computed on machine integers.
fn half_down_exec(r: i32) -> (h: i32)
    ensures
        h == half_down(r as int),
{
    let h = r >> 1u32;
    assert(h == r / 2) by (bit_vector)
        requires h == r >> 1u32;
    h
}

/// Converts offset coordinates to axial: `q = col - (row - (row AND 1)) / 2`, `r = row`.
pub fn offset_to_axial(c: OffsetCoord) -> (a: AxialCoord)
    requires
        offset_in_range(c),
    ensures
        a.q == q_of_offset(c),
        a.r == c.row,
{
    AxialCoord { q: c.col - half_down_exec(c.row), r: c.row }
}

/// Converts axial coordinates to offset: `col = q + (r - (r AND 1)) / 2`, `row = r`.
pub fn axial_to_offset(a: AxialCoord) -> (c: OffsetCoord)
    requires
        axial_in_range(a),
    ensures
        c.col == col_of_axial(a),
        c.row == a.r,
{
    OffsetCoord { row: a.r, col: a.q + half_down_exec(a.r) }
}

} // verus!
