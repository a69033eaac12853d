use vstd::prelude::*;
use crate::terrain::Terrain;

verus! {

/// Slot of `t` in a per-terrain table.
pub open spec fn terrain_slot(t: Terrain) -> int {
    match t {
        Terrain::Plains => 0,
        Terrain::Hills => 1,
        Terrain::Mountains => 2,
        Terrain::DeepWater => 3,
        Terrain::ShallowWater => 4,
    }
}

fn terrain_slot_exec(t: Terrain) -> (r: usize)
    ensures
        r == terrain_slot(t),
{
    match t {
        Terrain::Plains => 0,
        Terrain::Hills => 1,
        Terrain::Mountains => 2,
        Terrain::DeepWater => 3,
        Terrain::ShallowWater => 4,
    }
}

/// A cache from terrain kind to the resource that draws it: each kind's resource is
/// created once, on first demand, and handed out unchanged from then on.
pub struct TerrainMaterials<H: Copy> {
    slots: Vec<Option<H>>,
}

impl<H: Copy> TerrainMaterials<H> {
    /// The resource cached for `t`, if one was created.
    pub closed spec fn cached(&self, t: Terrain) -> Option<H> {
        self.slots@[terrain_slot(t)]
    }

    pub closed spec fn wf(&self) -> bool {
        self.slots@.len() == 5
    }

    /// An empty cache.
    pub fn new() -> (r: TerrainMaterials<H>)
        ensures
            r.wf(),
            forall|t: Terrain| #[trigger] r.cached(t) is None,
    {
        let mut slots: Vec<Option<H>> = Vec::new();
        let mut i: usize = 0;
        while i < 5
            invariant
                i <= 5,
                slots@.len() == i,
                forall|j: int| 0 <= j < i ==> #[trigger] slots@[j] is None,
            decreases 5 - i,
        {
            slots.push(None);
            i += 1;
        }
        TerrainMaterials { slots }
    }

    /// The resource for `terrain`: the cached one, or, the first time, the one `create`
    /// makes, which is then cached.
    pub fn get_or_create<F: FnOnce() -> H>(&mut self, terrain: Terrain, create: F) -> (r: H)
        requires
            old(self).wf(),
            old(self).cached(terrain) is None ==> create.requires(()),
        ensures
            final(self).wf(),
            match old(self).cached(terrain) {
                Some(h) => r == h,
                None => create.ensures((), r),
            },
            final(self).cached(terrain) == Some(r),
            forall|t: Terrain| t != terrain ==> #[trigger] final(self).cached(t) == old(self).cached(t),
    {
        let slot = terrain_slot_exec(terrain);
        match self.slots[slot] {
            Some(h) => h,
            None => {
                let h = create();
                self.slots.set(slot, Some(h));
                h
            },
        }
    }
}

} // verus!
