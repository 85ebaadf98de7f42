use vstd::prelude::*;
use crate::bytes::copy_bytes;

verus! {

pub fn concat(a: &Vec<u8>, b: &Vec<u8>) -> (r: Vec<u8>)
    ensures
        r@ == a@ + b@,
{
    let mut r = copy_bytes(a);
    let mut tail = copy_bytes(b);
    r.append(&mut tail);
    r
}

/// `/`
pub open spec fn slash() -> Seq<u8> {
    seq![47u8]
}

/// `/map.json`
pub open spec fn map_file() -> Seq<u8> {
    seq![47u8, 109u8, 97u8, 112u8, 46u8, 106u8, 115u8, 111u8, 110u8]
}

/// Where the game's files live: assets, configuration, data, and the current world.
/// Paths are joined as text; a directory path names a directory whose files the
/// caller lists.
pub struct ResourceManager {
    pub asset_path: Vec<u8>,
    pub config_path: Vec<u8>,
    pub data_path: Vec<u8>,
    pub world_path: Option<Vec<u8>>,
}

impl ResourceManager {
    pub fn new(asset_path: &Vec<u8>, config_path: &Vec<u8>, data_path: &Vec<u8>) -> (r: ResourceManager)
        ensures
            r.asset_path@ == asset_path@,
            r.config_path@ == config_path@,
            r.data_path@ == data_path@,
            r.world_path is None,
    {
        ResourceManager {
            asset_path: copy_bytes(asset_path),
            config_path: copy_bytes(config_path),
            data_path: copy_bytes(data_path),
            world_path: None,
        }
    }

    pub fn set_world(&mut self, world_path: &Vec<u8>)
        ensures
            final(self).world_path matches Some(w) && w@ == world_path@,
            final(self).asset_path == old(self).asset_path,
            final(self).config_path == old(self).config_path,
            final(self).data_path == old(self).data_path,
    {
        self.world_path = Some(copy_bytes(world_path));
    }

    pub fn get_world(&self) -> (r: Vec<u8>)
        requires
            self.world_path is Some,
        ensures
            r@ == self.world_path->Some_0@,
    {
        match &self.world_path {
            Some(w) => copy_bytes(w),
            None => Vec::new(),
        }
    }

    /// The directory of an asset category: `<asset path><category>/`.
    pub fn get_assets(&self, assets_name: &Vec<u8>) -> (r: Vec<u8>)
        ensures
            r@ == self.asset_path@ + assets_name@ + slash(),
    {
        let d = concat(&self.asset_path, assets_name);
        let s: Vec<u8> = vec![47u8];
        assert(s@ == slash());
        concat(&d, &s)
    }

    /// The map file: `<data path>/map.json`.
    pub fn get_map(&self) -> (r: Vec<u8>)
        ensures
            r@ == self.data_path@ + map_file(),
    {
        let m: Vec<u8> = vec![47u8, 109u8, 97u8, 112u8, 46u8, 106u8, 115u8, 111u8, 110u8];
        assert(m@ == map_file());
        concat(&self.data_path, &m)
    }

    /// The directory of a kind of data: `<data path><name>/`.
    pub fn get_data(&self, data_name: &Vec<u8>) -> (r: Vec<u8>)
        ensures
            r@ == self.data_path@ + data_name@ + slash(),
    {
        let d = concat(&self.data_path, data_name);
        let s: Vec<u8> = vec![47u8];
        assert(s@ == slash());
        concat(&d, &s)
    }

    /// The directory of a kind of world data: `<world path><name>/`.
    pub fn get_world_data(&self, data_name: &Vec<u8>) -> (r: Vec<u8>)
        requires
            self.world_path is Some,
        ensures
            r@ == self.world_path->Some_0@ + data_name@ + slash(),
    {
        let w = self.get_world();
        let d = concat(&w, data_name);
        let s: Vec<u8> = vec![47u8];
        assert(s@ == slash());
        concat(&d, &s)
    }

    /// A configuration file: `<config path><name>`.
    pub fn get_config(&self, config_name: &Vec<u8>) -> (r: Vec<u8>)
        ensures
            r@ == self.config_path@ + config_name@,
    {
        concat(&self.config_path, config_name)
    }
}

} // verus!
