use vstd::prelude::*;

verus! {

/// A unit as the roster lists it: its name and its health.
pub struct Unit {
    pub name: String,
    pub health: u16,
}

} // verus!
