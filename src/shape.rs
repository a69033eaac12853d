use vstd::prelude::*;
use crate::coord::{half_down, AxialCoord};

verus! {

/// The cell `y` rows and `x` columns from the corner of the pointy-top rectangle whose
/// offset columns start at `left` and whose rows start at `top`: row `top + y`, offset
/// column `left + x`, held in axial form.
pub open spec fn rectangle_cell(left: int, top: int, y: int, x: int) -> AxialCoord {
    AxialCoord { q: (left + x - half_down(top + y)) as i32, r: (top + y) as i32 }
}

/// Position of row `y`, column `x` in a row-by-row listing of rows `row_len` long.
pub open spec fn rectangle_index(row_len: int, y: int, x: int) -> int {
    y * row_len + x
}

/// Relies on `hexx::shapes::pointy_rectangle`, which walks the rows `top..=bottom` in order
/// and, within row `y`, the axial columns `(left - (y >> 1))..=(right - (y >> 1))` in order.
/// The bounds keep its element count, an `i32`, and its column arithmetic from overflowing.
#[verifier::external_body]
pub(crate) fn pointy_rectangle(left: i32, right: i32, top: i32, bottom: i32) -> (cells: Vec<AxialCoord>)
    requires
        0 <= left <= right,
        0 <= top <= bottom,
        (right - left + 1) * (bottom - top + 1) <= i32::MAX,
    ensures
        cells@.len() == (right - left + 1) * (bottom - top + 1),
        forall|y: int, x: int|
            0 <= y <= bottom - top && 0 <= x <= right - left ==> #[trigger] cells@[rectangle_index(
                right - left + 1,
                y,
                x,
            )] == rectangle_cell(left as int, top as int, y, x),
{
    hexx::shapes::pointy_rectangle([left, right, top, bottom])
        .map(|h| AxialCoord { q: h.x, r: h.y })
        .collect()
}

} // verus!
