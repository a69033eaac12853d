use vstd::prelude::*;

verus! {

/// The kind of a battle hex.
#[derive(Clone, Copy, Debug, PartialEq, Eq, Hash, Structural)]
pub enum HexType {
    DeepWater,
    ShallowWater,
    Plains,
    Hills,
    Mountains,
}

/// One hex of a battle map.
#[derive(Clone, Copy, Debug, PartialEq, Eq, Hash, Structural)]
pub struct BattleHex {
    pub hex_type: HexType,
}

/// A battle map of `size.0 * size.1` hexes, stored row by row.
#[derive(Debug)]
pub struct BattleMap {
    pub size: (u16, u16),
    pub hexes: Vec<BattleHex>,
}

impl BattleMap {
    /// A map of `size.0 * size.1` deep-water hexes with a single island of plains at
    /// hex 4.
    pub fn new(size: (u16, u16)) -> (r: BattleMap)
        requires
            5 <= size.0 * size.1 <= u16::MAX,
        ensures
            r.size == size,
            r.hexes@.len() == size.0 * size.1,
            r.hexes@[4].hex_type == HexType::Plains,
            forall|i: int|
                0 <= i < r.hexes@.len() && i != 4 ==> #[trigger] r.hexes@[i].hex_type
                    == HexType::DeepWater,
    {
        let n = size.0 * size.1;
        let mut hexes: Vec<BattleHex> = Vec::new();
        let mut i: u16 = 0;
        while i < n
            invariant
                i <= n,
                hexes@.len() == i,
                forall|j: int| 0 <= j < i ==> #[trigger] hexes@[j].hex_type == HexType::DeepWater,
            decreases n - i,
        {
            hexes.push(BattleHex { hex_type: HexType::DeepWater });
            i += 1;
        }
        hexes.set(4, BattleHex { hex_type: HexType::Plains });
        BattleMap { size, hexes }
    }
}

} // verus!
