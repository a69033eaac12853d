use battleisles::map::Hex;
use battleisles::terrain::Terrain;

#[test]
fn hex_test_hex_creation() {
    let hex = Hex {
        terrain: Terrain::Plains,
        position: (0, 0),
        neighbors: std::array::from_fn(|_| None),
    };
    assert_eq!(hex.terrain, Terrain::Plains);
    assert_eq!(hex.position, (0, 0));
    assert!(hex.neighbors.iter().all(|n| *n == None));
}

#[test]
fn default_terrain_is_deep_water() {
    assert_eq!(Terrain::default(), Terrain::DeepWater);
}

#[test]
fn hex_map_test_hex_creation() {
    let hex = battleisles::map::Tile {
        coord: battleisles::coord::OffsetCoord { row: 0, col: 0 },
        terrain: Terrain::Plains,
    };
    assert_eq!(hex.terrain, Terrain::Plains);
}

#[test]
fn test_tile_creation() {
    let sut = battleisles::map::Tile {
        coord: battleisles::coord::OffsetCoord { row: 0, col: 0 },
        terrain: Terrain::Plains,
    };
    assert_eq!(sut.coord.row, 0);
    assert_eq!(sut.coord.col, 0);
    assert_eq!(sut.terrain, Terrain::Plains);
}
