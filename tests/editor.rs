use battleisles::editor::{ApplyTerrainAt, Editor, EditorEvent, EditorIntent, GenerateMapEvent};
use battleisles::geometry::WorldPoint;
use battleisles::map::{ChangeRecord, MapError};
use battleisles::terrain::Terrain;

#[test]
fn editor_starts_without_map_and_ignores_paint() {
    let mut e = Editor::new(1);
    assert!(e.map().is_none());
    assert_eq!(e.paint_terrain_at(WorldPoint { x: 0, y: 0 }, Terrain::Hills), None);
    assert!(e.map().is_none());
}

#[test]
fn editor_generates_then_paints() {
    let mut e = Editor::new(1);
    assert_eq!(
        e.handle(EditorIntent::GenerateMap(GenerateMapEvent { width: 3, height: 3 })),
        Ok(Some(EditorEvent::MapReplaced))
    );
    assert_eq!(e.map().as_ref().unwrap().len(), 8);
    let r = e.handle(EditorIntent::PaintTerrainAt(ApplyTerrainAt {
        world_pos: WorldPoint { x: 2, y: 0 },
        terrain: Terrain::Plains,
    }));
    assert_eq!(
        r,
        Ok(Some(EditorEvent::TerrainChanged(ChangeRecord {
            tile_index: 1,
            previous_terrain: Terrain::DeepWater,
            new_terrain: Terrain::Plains,
        })))
    );
    assert_eq!(e.map().as_ref().unwrap().tiles()[1].terrain, Terrain::Plains);
}

#[test]
fn failed_generation_keeps_previous_map() {
    let mut e = Editor::new(2);
    assert_eq!(e.generate_map(4, 2), Ok(()));
    e.paint_terrain_at(WorldPoint { x: 0, y: 0 }, Terrain::Mountains);
    assert_eq!(
        e.handle(EditorIntent::GenerateMap(GenerateMapEvent { width: 1, height: 5 })),
        Err(MapError::DegenerateSingleColumn)
    );
    assert_eq!(e.generate_map(0, 5), Err(MapError::ZeroDimension));
    let m = e.map().as_ref().unwrap();
    assert_eq!((m.width(), m.height(), m.hex_size()), (4, 2, 2));
    assert_eq!(m.tiles()[0].terrain, Terrain::Mountains);
}

#[test]
fn regeneration_replaces_painted_map() {
    let mut e = Editor::new(1);
    e.generate_map(3, 3).unwrap();
    e.paint_terrain_at(WorldPoint { x: 0, y: 0 }, Terrain::Hills);
    e.generate_map(2, 1).unwrap();
    let m = e.map().as_ref().unwrap();
    assert_eq!(m.len(), 2);
    assert!(m.tiles().iter().all(|t| t.terrain == Terrain::DeepWater));
}

#[test]
fn paint_without_map_reports_nothing() {
    let mut e = Editor::new(1);
    let r = e.handle(EditorIntent::PaintTerrainAt(ApplyTerrainAt {
        world_pos: WorldPoint { x: 5, y: 5 },
        terrain: Terrain::Plains,
    }));
    assert_eq!(r, Ok(None));
}
