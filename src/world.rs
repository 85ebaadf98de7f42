use vstd::prelude::*;
use crate::bytes::copy_bytes;

verus! {

/// A faction of a world file: its name and its treasury.
pub struct Faction {
    pub name: Vec<u8>,
    pub gold: u32,
}

impl Faction {
    pub fn new(faction_name: &Vec<u8>, gold: u32) -> (r: Faction)
        ensures
            r.name@ == faction_name@,
            r.gold == gold,
    {
        Faction { name: copy_bytes(faction_name), gold }
    }
}

/// An army of a world file: its name, its units by name, and its general's unit.
pub struct Army {
    pub name: Vec<u8>,
    pub unit_names: Vec<Vec<u8>>,
    pub general_unit_name: Vec<u8>,
}

impl Army {
    pub fn new(name: Vec<u8>, unit_names: Vec<Vec<u8>>, general_unit_name: Vec<u8>) -> (r: Army)
        ensures
            r.name == name,
            r.unit_names == unit_names,
            r.general_unit_name == general_unit_name,
    {
        Army { name, unit_names, general_unit_name }
    }
}

} // verus!
