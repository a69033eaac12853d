use vstd::prelude::*;

verus! {

/// The closed set of terrain kinds a tile can carry.
#[derive(Clone, Copy, Debug, PartialEq, Eq, Hash, Structural)]
pub enum Terrain {
    Plains,
    Hills,
    Mountains,
    DeepWater,
    ShallowWater,
}

impl Default for Terrain {
    /// Deep water: the terrain every tile of a freshly generated map starts with.
    fn default() -> (r: Terrain)
        ensures
            r == Terrain::DeepWater,
    {
        Terrain::DeepWater
    }
}

} // verus!
