use vstd::prelude::*;
use crate::bytes::copy_bytes;

verus! {

/// A soldier of an army.
pub struct Unit {}

impl Unit {
    pub fn new() -> (r: Unit) {
        Unit {}
    }
}

/// An army: its units, once known.
pub struct Army {
    pub units: Option<Vec<Unit>>,
}

impl Army {
    pub fn new() -> (r: Army)
        ensures
            r.units is None,
    {
        Army { units: None }
    }
}

/// A settlement: the names of its buildings, once known.
pub struct Settlement {
    pub buildings: Option<Vec<Vec<u8>>>,
}

impl Settlement {
    pub fn new() -> (r: Settlement)
        ensures
            r.buildings is None,
    {
        Settlement { buildings: None }
    }
}

/// A playable faction, as saved in a world.
pub struct Faction {
    pub name: Vec<u8>,
    pub armies: Option<Vec<Army>>,
    pub settlements: Option<Vec<Settlement>>,
}

impl Faction {
    pub fn new(name: &Vec<u8>) -> (r: Faction)
        ensures
            r.name@ == name@,
            r.armies is None,
            r.settlements is None,
    {
        Faction { name: copy_bytes(name), armies: None, settlements: None }
    }

    /// Event codes do not change a faction.
    pub fn retreive_event_code(&mut self, code: &Vec<u8>)
        ensures
            *final(self) == *old(self),
    {
    }
}

/// The world map: the names of its landscapes and regions, once known.
pub struct WorldMap {
    pub landscapes: Option<Vec<Vec<u8>>>,
    pub regions: Option<Vec<Vec<u8>>>,
}

impl WorldMap {
    pub fn new() -> (r: WorldMap)
        ensures
            r.landscapes is None,
            r.regions is None,
    {
        WorldMap { landscapes: None, regions: None }
    }
}

} // verus!
