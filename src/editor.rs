use vstd::prelude::*;
use crate::geometry::WorldPoint;
use crate::grid::valid_dims;
use crate::map::{dims_error, dims_fit, painted, ChangeRecord, HexMap, MapError, MapView};
use crate::terrain::Terrain;

verus! {

/// A request to build a fresh `width` x `height` map in place of the current one.
#[derive(Clone, Copy, Debug, PartialEq, Eq, Hash, Structural)]
pub struct GenerateMapEvent {
    pub width: u32,
    pub height: u32,
}

/// A request to paint the tile nearest to `world_pos` with `terrain`.
#[derive(Clone, Copy, Debug, PartialEq, Eq, Hash, Structural)]
pub struct ApplyTerrainAt {
    pub world_pos: WorldPoint,
    pub terrain: Terrain,
}

/// What the user asks the editor to do.
#[derive(Clone, Copy, Debug, PartialEq, Eq, Hash, Structural)]
pub enum EditorIntent {
    GenerateMap(GenerateMapEvent),
    PaintTerrainAt(ApplyTerrainAt),
}

/// What the editor publishes after handling an intent.
#[derive(Clone, Copy, Debug, PartialEq, Eq, Hash, Structural)]
pub enum EditorEvent {
    /// A new map replaced the previous one; earlier tile indices are stale.
    MapReplaced,
    /// One tile's terrain was replaced.
    TerrainChanged(ChangeRecord),
}

/// The editor's state: no map yet, or the current map.
pub struct Editor {
    hex_size: u32,
    map: Option<HexMap>,
}

pub ghost struct EditorView {
    pub hex_size: nat,
    pub map: Option<MapView>,
}

impl View for Editor {
    type V = EditorView;

    closed spec fn view(&self) -> EditorView {
        EditorView {
            hex_size: self.hex_size as nat,
            map: match self.map {
                Some(m) => Some(m@),
                None => None,
            },
        }
    }
}

/// `m` is the freshly generated map of `width` x `height` tiles of circumradius
/// `hex_size`: all deep water.
pub open spec fn is_fresh_map(m: MapView, width: int, height: int, hex_size: int) -> bool {
    &&& m.wf()
    &&& m.width == width
    &&& m.height == height
    &&& m.hex_size == hex_size
    &&& forall|i: int| 0 <= i < m.tiles.len() ==> #[trigger] m.tiles[i].terrain == Terrain::DeepWater
}

impl EditorView {
    pub open spec fn wf(self) -> bool {
        &&& self.hex_size >= 1
        &&& match self.map {
            Some(m) => m.wf() && m.hex_size == self.hex_size,
            None => true,
        }
    }

    /// The outcome of generating a `width` x `height` map from state `self`: `after` is
    /// the new state and `r` what is reported. A refused size leaves the state as it was.
    pub open spec fn generated(self, after: EditorView, width: int, height: int, r: Result<(), MapError>) -> bool {
        &&& after.hex_size == self.hex_size
        &&& match dims_error(width, height) {
            Some(e) => r == Err::<(), MapError>(e) && after == self,
            None => r is Ok && match after.map {
                Some(m) => is_fresh_map(m, width, height, self.hex_size as int),
                None => false,
            },
        }
    }

    /// The outcome of painting at `pos` from state `self`: with a map, the tile nearest to
    /// `pos` gets `terrain` and its change is reported; without one nothing happens.
    pub open spec fn painted_at(
        self,
        after: EditorView,
        pos: WorldPoint,
        terrain: Terrain,
        r: Option<ChangeRecord>,
    ) -> bool {
        &&& after.hex_size == self.hex_size
        &&& match self.map {
            None => r is None && after == self,
            Some(m) => match r {
                Some(rec) => {
                    let k = rec.tile_index as int;
                    &&& m.is_nearest(pos.x as int, pos.y as int, k)
                    &&& rec.previous_terrain == m.tiles[k].terrain
                    &&& rec.new_terrain == terrain
                    &&& after.map == Some(MapView { tiles: painted(m.tiles, k, terrain), ..m })
                },
                None => false,
            },
        }
    }
}

impl Editor {
    /// An editor without a map, generating maps of circumradius `hex_size`.
    pub fn new(hex_size: u32) -> (r: Editor)
        requires
            hex_size >= 1,
        ensures
            r@.wf(),
            r@.hex_size == hex_size,
            r@.map is None,
    {
        Editor { hex_size, map: None }
    }

    /// The current map, if any.
    pub fn map(&self) -> (r: &Option<HexMap>)
        ensures
            match r {
                Some(m) => self@.map == Some(m@),
                None => self@.map is None,
            },
    {
        &self.map
    }

    /// Replaces the current map by a fresh `width` x `height` one; a refused size leaves
    /// the editor as it was and reports why.
    pub fn generate_map(&mut self, width: u32, height: u32) -> (r: Result<(), MapError>)
        requires
            old(self)@.wf(),
            valid_dims(width as int, height as int) ==> dims_fit(
                width as int,
                height as int,
                old(self)@.hex_size as int,
            ),
        ensures
            final(self)@.wf(),
            old(self)@.generated(final(self)@, width as int, height as int, r),
    {
        match HexMap::try_new(width, height, self.hex_size) {
            Ok(m) => {
                self.map = Some(m);
                Ok(())
            },
            Err(e) => Err(e),
        }
    }

    /// Paints the tile nearest to `pos` with `terrain` and reports the change; without a
    /// map nothing happens.
    pub fn paint_terrain_at(&mut self, pos: WorldPoint, terrain: Terrain) -> (r: Option<ChangeRecord>)
        requires
            old(self)@.wf(),
        ensures
            final(self)@.wf(),
            old(self)@.painted_at(final(self)@, pos, terrain, r),
    {
        match &mut self.map {
            None => None,
            Some(m) => {
                proof {
                    crate::map::lemma_map_nonempty(m@);
                }
                let k = m.nearest_tile(pos);
                match k {
                    None => None,
                    Some(k) => {
                        match m.set_terrain(k, terrain) {
                            Ok(rec) => Some(rec),
                            Err(_) => None,
                        }
                    },
                }
            },
        }
    }

    /// Handles one intent: the new state, and the event to publish or the error to show.
    pub fn handle(&mut self, intent: EditorIntent) -> (r: Result<Option<EditorEvent>, MapError>)
        requires
            old(self)@.wf(),
            intent matches EditorIntent::GenerateMap(g) ==> (valid_dims(
                g.width as int,
                g.height as int,
            ) ==> dims_fit(g.width as int, g.height as int, old(self)@.hex_size as int)),
        ensures
            final(self)@.wf(),
            match intent {
                EditorIntent::GenerateMap(g) => {
                    &&& old(self)@.generated(final(self)@, g.width as int, g.height as int, match r {
                        Ok(_) => Ok(()),
                        Err(e) => Err(e),
                    })
                    &&& r is Ok ==> r == Ok::<Option<EditorEvent>, MapError>(Some(EditorEvent::MapReplaced))
                },
                EditorIntent::PaintTerrainAt(a) => {
                    &&& old(self)@.painted_at(final(self)@, a.world_pos, a.terrain, match r {
                        Ok(Some(EditorEvent::TerrainChanged(rec))) => Some(rec),
                        _ => None,
                    })
                    &&& r is Ok
                    &&& r != Ok::<Option<EditorEvent>, MapError>(Some(EditorEvent::MapReplaced))
                },
            },
    {
        match intent {
            EditorIntent::GenerateMap(g) => {
                match self.generate_map(g.width, g.height) {
                    Ok(()) => Ok(Some(EditorEvent::MapReplaced)),
                    Err(e) => Err(e),
                }
            },
            EditorIntent::PaintTerrainAt(a) => {
                match self.paint_terrain_at(a.world_pos, a.terrain) {
                    Some(rec) => Ok(Some(EditorEvent::TerrainChanged(rec))),
                    None => Ok(None),
                }
            },
        }
    }
}

} // verus!
