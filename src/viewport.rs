use vstd::prelude::*;
use crate::geometry::Bounds;

verus! {

/// Pixels reserved around the viewport by interface panels.
#[derive(Clone, Copy, Debug, PartialEq, Eq, Hash, Structural)]
pub struct Insets {
    pub left: u32,
    pub right: u32,
    pub top: u32,
    pub bottom: u32,
}

/// An orthographic view rectangle in world units, held exactly: it is
/// `width_num * k / denom` wide and `height_num * k / denom` high, where `k` is `sqrt(3)`
/// when `times_sqrt3` holds and 1 otherwise.
#[derive(Clone, Copy, Debug, PartialEq, Eq, Hash, Structural)]
pub struct FitRect {
    pub width_num: u64,
    pub height_num: u64,
    pub denom: u64,
    pub times_sqrt3: bool,
}

/// Usable window width in pixels once the side panels are taken off; may be negative.
pub open spec fn usable_width(window_width: int, insets: Insets) -> int {
    window_width - insets.left - insets.right
}

/// Usable window height in pixels once the top and bottom panels are taken off.
pub open spec fn usable_height(window_height: int, insets: Insets) -> int {
    window_height - insets.top - insets.bottom
}

/// Width of `b` in lattice `x` steps (`sqrt(3) / 2` world units each), at least 1.
pub open spec fn span_x(b: Bounds) -> int {
    if b.right > b.left {
        b.right - b.left
    } else {
        1
    }
}

/// Height of `b` in lattice `y` steps (`1 / 2` world unit each), at least 1.
pub open spec fn span_y(b: Bounds) -> int {
    if b.top > b.bottom {
        b.top - b.bottom
    } else {
        1
    }
}

/// The usable area is relatively wider than the map: `uw / uh > map_w / map_h`, with
/// `map_w = span_x * sqrt(3) / 2` and `map_h = span_y / 2`, compared without roots.
pub open spec fn window_wider(b: Bounds, uw: int, uh: int) -> bool {
    (uw * span_y(b)) * (uw * span_y(b)) > 3 * ((span_x(b) * uh) * (span_x(b) * uh))
}

/// The view rectangle for map bounds `b` in a window of the given size: it matches the
/// usable area's aspect ratio and is just large enough to hold the map. Where the window
/// is wider than the map the map's height is kept, otherwise its width. No usable area
/// gives the empty rectangle.
pub open spec fn fit(b: Bounds, window_width: int, window_height: int, insets: Insets) -> FitRect {
    let uw = usable_width(window_width, insets);
    let uh = usable_height(window_height, insets);
    if uw <= 0 || uh <= 0 {
        FitRect { width_num: 0, height_num: 0, denom: 1, times_sqrt3: false }
    } else if window_wider(b, uw, uh) {
        FitRect {
            width_num: (span_y(b) * uw) as u64,
            height_num: (span_y(b) * uh) as u64,
            denom: (2 * uh) as u64,
            times_sqrt3: false,
        }
    } else {
        FitRect {
            width_num: (span_x(b) * uw) as u64,
            height_num: (span_x(b) * uh) as u64,
            denom: (2 * uw) as u64,
            times_sqrt3: true,
        }
    }
}

/// `a * a > 3 * (c * c)` for values whose squares fit in 128 bits, computed without
/// forming `3 * c * c`.
fn square_exceeds_three_squares(a: u64, c: u64) -> (r: bool)
    ensures
        r == (a * a > 3 * (c * c)),
{
    assert(a * a <= 0xffff_ffff_ffff_ffff * 0xffff_ffff_ffff_ffff) by (nonlinear_arith)
        requires a <= 0xffff_ffff_ffff_ffff;
    assert(c * c <= 0xffff_ffff_ffff_ffff * 0xffff_ffff_ffff_ffff) by (nonlinear_arith)
        requires c <= 0xffff_ffff_ffff_ffff;
    let a2 = a as u128 * a as u128;
    let c2 = c as u128 * c as u128;
    let q = a2 / 3;
    let rem = a2 % 3;
    q > c2 || (q == c2 && rem > 0)
}

/// The view rectangle that shows the whole map inside the window's usable area.
pub fn fit_rectangle(map_bounds: Bounds, window_pixels: (u32, u32), insets: Insets) -> (r: FitRect)
    ensures
        r == fit(map_bounds, window_pixels.0 as int, window_pixels.1 as int, insets),
{
    let uw: i64 = window_pixels.0 as i64 - insets.left as i64 - insets.right as i64;
    let uh: i64 = window_pixels.1 as i64 - insets.top as i64 - insets.bottom as i64;
    if uw <= 0 || uh <= 0 {
        return FitRect { width_num: 0, height_num: 0, denom: 1, times_sqrt3: false };
    }
    let dx: i64 = if map_bounds.right > map_bounds.left {
        map_bounds.right as i64 - map_bounds.left as i64
    } else {
        1
    };
    let dy: i64 = if map_bounds.top > map_bounds.bottom {
        map_bounds.top as i64 - map_bounds.bottom as i64
    } else {
        1
    };
    let uw = uw as u64;
    let uh = uh as u64;
    let dx = dx as u64;
    let dy = dy as u64;
    assert(uw * dy <= 0xffff_ffff * 0xffff_ffff) by (nonlinear_arith)
        requires uw <= 0xffff_ffff, dy <= 0xffff_ffff;
    assert(uh * dy <= 0xffff_ffff * 0xffff_ffff) by (nonlinear_arith)
        requires uh <= 0xffff_ffff, dy <= 0xffff_ffff;
    assert(uw * dx <= 0xffff_ffff * 0xffff_ffff) by (nonlinear_arith)
        requires uw <= 0xffff_ffff, dx <= 0xffff_ffff;
    assert(uh * dx <= 0xffff_ffff * 0xffff_ffff) by (nonlinear_arith)
        requires uh <= 0xffff_ffff, dx <= 0xffff_ffff;
    assert(uw * dy == dy * uw && uh * dy == dy * uh && uw * dx == dx * uw && uh * dx == dx * uh);
    if square_exceeds_three_squares(uw * dy, dx * uh) {
        FitRect { width_num: dy * uw, height_num: dy * uh, denom: 2 * uh, times_sqrt3: false }
    } else {
        FitRect { width_num: dx * uw, height_num: dx * uh, denom: 2 * uw, times_sqrt3: true }
    }
}


/// The fitted rectangle has the usable area's aspect ratio:
/// `target_w / target_h == usable_w / usable_h`, exactly.
pub proof fn lemma_fit_keeps_aspect(b: Bounds, window_width: int, window_height: int, insets: Insets)
    requires
        0 <= window_width <= u32::MAX,
        0 <= window_height <= u32::MAX,
        usable_width(window_width, insets) > 0,
        usable_height(window_height, insets) > 0,
    ensures
        ({
            let r = fit(b, window_width, window_height, insets);
            r.width_num * usable_height(window_height, insets) == r.height_num * usable_width(
                window_width,
                insets,
            )
        }),
        fit(b, window_width, window_height, insets).denom > 0,
{
    let uw = usable_width(window_width, insets);
    let uh = usable_height(window_height, insets);
    let sx = span_x(b);
    let sy = span_y(b);
    assert(0 < sx <= 0xffff_ffff && 0 < sy <= 0xffff_ffff);
    assert(0 < sy * uw <= 0xffff_ffff * 0xffff_ffff && 0 < sy * uh <= 0xffff_ffff * 0xffff_ffff
        && 0 < sx * uw <= 0xffff_ffff * 0xffff_ffff && 0 < sx * uh <= 0xffff_ffff * 0xffff_ffff)
        by (nonlinear_arith)
        requires 0 < sx <= 0xffff_ffff, 0 < sy <= 0xffff_ffff, 0 < uw <= 0xffff_ffff, 0 < uh <= 0xffff_ffff;
    assert((sy * uw) * uh == (sy * uh) * uw && (sx * uw) * uh == (sx * uh) * uw) by (nonlinear_arith);
}

/// The fitted rectangle holds the map: it is at least as wide as `span_x * sqrt(3) / 2`
/// and at least as high as `span_y / 2` world units. With `k` the rectangle's factor, the
/// comparisons are squared and multiplied out so that no root remains.
pub proof fn lemma_fit_contains_map(b: Bounds, window_width: int, window_height: int, insets: Insets)
    requires
        0 <= window_width <= u32::MAX,
        0 <= window_height <= u32::MAX,
        usable_width(window_width, insets) > 0,
        usable_height(window_height, insets) > 0,
    ensures
        ({
            let r = fit(b, window_width, window_height, insets);
            let (w, h, d) = (r.width_num as int, r.height_num as int, r.denom as int);
            if r.times_sqrt3 {
                &&& 2 * w >= span_x(b) * d
                &&& 12 * (h * h) >= (span_y(b) * d) * (span_y(b) * d)
            } else {
                &&& 4 * (w * w) >= 3 * ((span_x(b) * d) * (span_x(b) * d))
                &&& 2 * h >= span_y(b) * d
            }
        }),
{
    let uw = usable_width(window_width, insets);
    let uh = usable_height(window_height, insets);
    let sx = span_x(b);
    let sy = span_y(b);
    assert(0 < sx <= 0xffff_ffff && 0 < sy <= 0xffff_ffff);
    assert(0 < sy * uw <= 0xffff_ffff * 0xffff_ffff && 0 < sy * uh <= 0xffff_ffff * 0xffff_ffff
        && 0 < sx * uw <= 0xffff_ffff * 0xffff_ffff && 0 < sx * uh <= 0xffff_ffff * 0xffff_ffff)
        by (nonlinear_arith)
        requires 0 < sx <= 0xffff_ffff, 0 < sy <= 0xffff_ffff, 0 < uw <= 0xffff_ffff, 0 < uh <= 0xffff_ffff;
    if window_wider(b, uw, uh) {
        let a = uw * sy;
        let c = sx * uh;
        assert(4 * ((sy * uw) * (sy * uw)) >= 3 * ((sx * (2 * uh)) * (sx * (2 * uh)))) by (nonlinear_arith)
            requires a * a > 3 * (c * c), a == uw * sy, c == sx * uh;
        assert(2 * (sy * uh) >= sy * (2 * uh)) by (nonlinear_arith);
    } else {
        let a = uw * sy;
        let c = sx * uh;
        assert(2 * (sx * uw) >= sx * (2 * uw)) by (nonlinear_arith);
        assert(12 * ((sx * uh) * (sx * uh)) >= (sy * (2 * uw)) * (sy * (2 * uw))) by (nonlinear_arith)
            requires !(a * a > 3 * (c * c)), a == uw * sy, c == sx * uh;
    }
}

} // verus!
