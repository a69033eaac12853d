use battleisles::geometry::Bounds;
use battleisles::map::HexMap;
use battleisles::viewport::{fit_rectangle, FitRect, Insets};

fn panels() -> Insets {
    Insets { left: 100, right: 100, top: 50, bottom: 50 }
}

#[test]
fn wide_window_keeps_map_height() {
    let b = HexMap::try_new(3, 3, 1).unwrap().bounds();
    // Usable 600 x 500; the map is 6 x sqrt(3)/2 wide and 10 / 2 high.
    let r = fit_rectangle(b, (800, 600), panels());
    assert_eq!(r, FitRect { width_num: 6000, height_num: 5000, denom: 1000, times_sqrt3: false });
}

#[test]
fn tall_window_keeps_map_width() {
    let b = HexMap::try_new(3, 3, 1).unwrap().bounds();
    let none = Insets { left: 0, right: 0, top: 0, bottom: 0 };
    let r = fit_rectangle(b, (300, 1000), none);
    assert_eq!(r, FitRect { width_num: 1800, height_num: 6000, denom: 600, times_sqrt3: true });
}

#[test]
fn fitted_rectangle_keeps_usable_aspect() {
    let b = HexMap::try_new(9, 4, 2).unwrap().bounds();
    for (w, h) in [(800u32, 600u32), (1920, 1080), (400, 1200), (1000, 200)] {
        let r = fit_rectangle(b, (w, h), panels());
        let (uw, uh) = (w as u64 - 200, h as u64 - 100);
        assert_eq!(r.width_num * uh, r.height_num * uw);
        let k = if r.times_sqrt3 { 3f64.sqrt() } else { 1.0 };
        let tw = r.width_num as f64 * k / r.denom as f64;
        let th = r.height_num as f64 * k / r.denom as f64;
        assert!((tw / th - uw as f64 / uh as f64).abs() < 1e-9);
        let map_w = (b.right - b.left) as f64 * 3f64.sqrt() / 2.0;
        let map_h = (b.top - b.bottom) as f64 / 2.0;
        assert!(tw >= map_w - 1e-9 && th >= map_h - 1e-9);
    }
}

#[test]
fn no_usable_area_gives_empty_rectangle() {
    let b = HexMap::try_new(3, 3, 1).unwrap().bounds();
    let empty = FitRect { width_num: 0, height_num: 0, denom: 1, times_sqrt3: false };
    assert_eq!(fit_rectangle(b, (150, 600), panels()), empty);
    assert_eq!(fit_rectangle(b, (800, 100), panels()), empty);
}

#[test]
fn flat_bounds_get_a_minimum_size() {
    let b = Bounds { left: 3, right: 3, top: 0, bottom: 0 };
    let none = Insets { left: 0, right: 0, top: 0, bottom: 0 };
    let r = fit_rectangle(b, (100, 100), none);
    assert_eq!(r, FitRect { width_num: 100, height_num: 100, denom: 200, times_sqrt3: true });
}
