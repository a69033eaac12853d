use battleisles::coord::OffsetCoord;
use battleisles::geometry::{Bounds, WorldPoint};
use battleisles::map::{ChangeRecord, EditError, HexMap, MapError};
use battleisles::terrain::Terrain;

fn cells(m: &HexMap) -> Vec<(i32, i32)> {
    m.tiles().iter().map(|t| (t.coord.row, t.coord.col)).collect()
}

#[test]
fn generates_three_by_three_in_row_major_order() {
    let m = HexMap::try_new(3, 3, 1).unwrap();
    assert_eq!(m.len(), 8);
    assert_eq!(
        cells(&m),
        vec![(0, 0), (0, 1), (0, 2), (1, 0), (1, 1), (2, 0), (2, 1), (2, 2)]
    );
    assert!(m.tiles().iter().all(|t| t.terrain == Terrain::DeepWater));
    assert_eq!(m.width(), 3);
    assert_eq!(m.height(), 3);
    assert_eq!(m.hex_size(), 1);
}

#[test]
fn zero_dimension_is_refused() {
    assert_eq!(HexMap::try_new(0, 10, 1).err(), Some(MapError::ZeroDimension));
    assert_eq!(HexMap::try_new(10, 0, 1).err(), Some(MapError::ZeroDimension));
    assert_eq!(HexMap::try_new(0, 0, 1).err(), Some(MapError::ZeroDimension));
}

#[test]
fn single_column_of_several_rows_is_refused() {
    assert_eq!(
        HexMap::try_new(1, 2, 1).err(),
        Some(MapError::DegenerateSingleColumn)
    );
    let one = HexMap::try_new(1, 1, 1).unwrap();
    assert_eq!(one.len(), 1);
    assert_eq!(cells(&one), vec![(0, 0)]);
}

#[test]
fn tile_count_matches_formula() {
    assert_eq!(HexMap::new(10, 10).unwrap().len(), 95);
    assert_eq!(HexMap::new(5, 5).unwrap().len(), 23);
    for w in 1..7u32 {
        for h in 1..7u32 {
            if w == 1 && h > 1 {
                continue;
            }
            let m = HexMap::try_new(w, h, 2).unwrap();
            assert_eq!(m.len(), (w * h - h / 2) as usize);
        }
    }
}

#[test]
fn new_uses_unit_hex_size() {
    let m = HexMap::new(4, 3).unwrap();
    assert_eq!(m.hex_size(), 1);
    assert_eq!(HexMap::new(0, 3).err(), Some(MapError::ZeroDimension));
}

#[test]
fn every_tile_lies_in_grid_and_cells_are_unique() {
    let m = HexMap::try_new(6, 5, 1).unwrap();
    let mut seen = std::collections::HashSet::new();
    for t in m.tiles() {
        let cols = if t.coord.row % 2 == 0 { 6 } else { 5 };
        assert!(0 <= t.coord.row && t.coord.row < 5);
        assert!(0 <= t.coord.col && t.coord.col < cols);
        assert!(seen.insert((t.coord.row, t.coord.col)));
    }
}

#[test]
fn neighbors_of_odd_row_tile_follow_direction_table() {
    let m = HexMap::try_new(3, 3, 1).unwrap();
    // Tile 3 is (1, 0): NE (0, 1), E (1, 1), SE (2, 1), SW (2, 0), W none, NW (0, 0).
    assert_eq!(m.neighbors(3), [Some(1), Some(4), Some(6), Some(5), None, Some(0)]);
}

#[test]
fn neighbors_of_even_row_tiles() {
    let m = HexMap::try_new(3, 3, 1).unwrap();
    // Tile 0 is (0, 0): only E (0, 1) and SE (1, 0).
    assert_eq!(m.neighbors(0), [None, Some(1), Some(3), None, None, None]);
    // Tile 6 is (2, 1): NE (1, 1), E (2, 2), W (2, 0), NW (1, 0).
    assert_eq!(m.neighbors(6), [Some(4), Some(7), None, None, Some(5), Some(3)]);
}

#[test]
fn adjacency_is_symmetric() {
    let m = HexMap::try_new(5, 6, 1).unwrap();
    for i in 0..m.len() {
        for (slot, n) in m.neighbors(i).iter().enumerate() {
            if let Some(j) = *n {
                assert_eq!(m.neighbors(j)[(slot + 3) % 6], Some(i));
            }
        }
    }
}

#[test]
fn hex_record_carries_terrain_position_and_neighbors() {
    let m = HexMap::try_new(3, 3, 1).unwrap();
    let h = m.hex(3);
    assert_eq!(h.terrain, Terrain::DeepWater);
    assert_eq!(h.position, (1, 0));
    assert_eq!(h.neighbors, m.neighbors(3));
}

#[test]
fn tile_centers_follow_layout() {
    let m = HexMap::try_new(3, 3, 1).unwrap();
    assert_eq!(m.tile_to_world(0), WorldPoint { x: 0, y: 0 });
    assert_eq!(m.tile_to_world(1), WorldPoint { x: 2, y: 0 });
    assert_eq!(m.tile_to_world(3), WorldPoint { x: 1, y: 3 });
    assert_eq!(m.tile_to_world(7), WorldPoint { x: 4, y: 6 });
    let big = HexMap::try_new(3, 3, 2).unwrap();
    assert_eq!(big.tile_to_world(4), WorldPoint { x: 6, y: 6 });
}

#[test]
fn tile_to_world_is_repeatable_and_depends_on_cell_only() {
    let m = HexMap::try_new(4, 4, 3).unwrap();
    let other = HexMap::try_new(6, 5, 3).unwrap();
    for i in 0..m.len() {
        let t = m.tiles()[i];
        assert_eq!(m.tile_to_world(i), m.tile_to_world(i));
        assert_eq!(m.tile_to_world_pos(&t), other.tile_to_world_pos(&t));
    }
    let t = battleisles::map::Tile {
        coord: OffsetCoord { row: 1, col: 1 },
        terrain: Terrain::Hills,
    };
    assert_eq!(m.tile_to_world_pos(&t), WorldPoint { x: 9, y: 9 });
}

#[test]
fn bounds_of_three_by_three() {
    let m = HexMap::try_new(3, 3, 1).unwrap();
    assert_eq!(
        m.bounds(),
        Bounds { left: -1, right: 5, top: 8, bottom: -2 }
    );
    let m = HexMap::try_new(10, 10, 2).unwrap();
    assert_eq!(
        m.bounds(),
        Bounds { left: -2, right: 38, top: 58, bottom: -4 }
    );
}

#[test]
fn bounds_strictly_contain_every_center() {
    let m = HexMap::try_new(7, 4, 2).unwrap();
    let b = m.bounds();
    for i in 0..m.len() {
        let p = m.tile_to_world(i);
        assert!(b.left < p.x && p.x < b.right);
        assert!(b.bottom < p.y && p.y < b.top);
    }
}

#[test]
fn paint_round_trip() {
    let mut m = HexMap::try_new(3, 3, 1).unwrap();
    assert_eq!(
        m.set_terrain(4, Terrain::Plains),
        Ok(ChangeRecord { tile_index: 4, previous_terrain: Terrain::DeepWater, new_terrain: Terrain::Plains })
    );
    assert_eq!(m.tiles()[4].terrain, Terrain::Plains);
    assert_eq!(
        m.set_terrain(4, Terrain::Plains),
        Ok(ChangeRecord { tile_index: 4, previous_terrain: Terrain::Plains, new_terrain: Terrain::Plains })
    );
    assert_eq!(m.tiles()[4].terrain, Terrain::Plains);
    assert_eq!(m.tiles()[4].coord, OffsetCoord { row: 1, col: 1 });
    assert!(m.tiles().iter().enumerate().all(|(i, t)| i == 4 || t.terrain == Terrain::DeepWater));
}

#[test]
fn repeated_paint_changes_nothing_more() {
    let mut m = HexMap::try_new(4, 3, 1).unwrap();
    let first = m.set_terrain(2, Terrain::Mountains).unwrap();
    let after_first = m.tiles().clone();
    let second = m.set_terrain(2, Terrain::Mountains).unwrap();
    assert_eq!(m.tiles(), &after_first);
    assert_eq!(first.tile_index, second.tile_index);
    assert_eq!(first.new_terrain, second.new_terrain);
    assert_eq!(first.previous_terrain, Terrain::DeepWater);
    assert_eq!(second.previous_terrain, Terrain::Mountains);
}

#[test]
fn paint_out_of_range_is_refused() {
    let mut m = HexMap::try_new(3, 3, 1).unwrap();
    assert_eq!(m.set_terrain(8, Terrain::Hills), Err(EditError::OutOfRange));
    assert!(m.tiles().iter().all(|t| t.terrain == Terrain::DeepWater));
}

#[test]
fn hit_test_near_origin_and_one_column_east() {
    let m = HexMap::try_new(3, 3, 2).unwrap();
    assert_eq!(m.nearest_tile(WorldPoint { x: 0, y: 0 }), Some(0));
    // sqrt(3) * 2 world units east is 4 lattice steps of sqrt(3) / 2.
    assert_eq!(m.nearest_tile(WorldPoint { x: 4, y: 0 }), Some(1));
}

#[test]
fn hit_test_of_each_center_returns_its_tile() {
    let m = HexMap::try_new(5, 4, 3).unwrap();
    for i in 0..m.len() {
        assert_eq!(m.nearest_tile(m.tile_to_world(i)), Some(i));
    }
}

#[test]
fn hit_test_tie_goes_to_lowest_index() {
    let m = HexMap::try_new(3, 3, 1).unwrap();
    // Halfway between tile 0 at x = 0 and tile 1 at x = 2.
    assert_eq!(m.nearest_tile(WorldPoint { x: 1, y: 0 }), Some(0));
}

#[test]
fn hit_test_far_outside_resolves_to_nearest() {
    let m = HexMap::try_new(3, 3, 1).unwrap();
    assert_eq!(m.nearest_tile(WorldPoint { x: 1000, y: 1000 }), Some(7));
    assert_eq!(m.nearest_tile(WorldPoint { x: i32::MIN, y: i32::MIN }), Some(0));
}

#[test]
fn fits_reports_machine_limits() {
    assert!(HexMap::fits(100, 100, 1000));
    assert!(!HexMap::fits(70_000, 70_000, 1));
    assert!(!HexMap::fits(3, 3, u32::MAX));
    assert!(HexMap::fits(0, 0, u32::MAX));
}

#[test]
fn centroid_sums_and_bounds_center() {
    let m = HexMap::try_new(3, 3, 1).unwrap();
    assert_eq!(m.center_sums(), (16, 24));
    assert_eq!(m.bounds().doubled_center(), (4, 6));
    let m = HexMap::try_new(2, 2, 3).unwrap();
    // Centers (0, 0), (6, 0), (3, 9).
    assert_eq!(m.center_sums(), (9, 9));
    assert_eq!(m.bounds().doubled_center(), (6, 9));
}
