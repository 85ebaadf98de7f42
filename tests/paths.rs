use ta_render::game::{Army, Faction, Settlement, Unit, WorldMap};
use ta_render::resource_manager::ResourceManager;
use ta_render::world;
use ta_render::Config;

fn b(s: &str) -> Vec<u8> {
    s.as_bytes().to_vec()
}

#[test]
fn resource_paths_are_joined() {
    let mut rm = ResourceManager::new(&b("assets/"), &b("config/"), &b("data/"));
    assert_eq!(rm.get_assets(&b("shaders")), b("assets/shaders/"));
    assert_eq!(rm.get_config(&b("graphics.json")), b("config/graphics.json"));
    assert_eq!(rm.get_map(), b("data//map.json"));
    assert_eq!(rm.get_data(&b("units")), b("data/units/"));
    assert!(rm.world_path.is_none());
    rm.set_world(&b("world/"));
    assert_eq!(rm.get_world(), b("world/"));
    assert_eq!(rm.get_world_data(&b("factions")), b("world/factions/"));
    let c = Config { resource_manager: rm };
    assert_eq!(c.resource_manager.asset_path, b("assets/"));
}

#[test]
fn game_records_start_empty() {
    let mut f = Faction::new(&b("Gondor"));
    assert_eq!(f.name, b("Gondor"));
    assert!(f.armies.is_none() && f.settlements.is_none());
    f.retreive_event_code(&b("play"));
    assert_eq!(f.name, b("Gondor"));
    assert!(Army::new().units.is_none());
    assert!(Settlement::new().buildings.is_none());
    let m = WorldMap::new();
    assert!(m.landscapes.is_none() && m.regions.is_none());
    let _ = Unit::new();
    let wf = world::Faction::new(&b("Rohan"), 500);
    assert_eq!(wf.gold, 500);
    let wa = world::Army::new(b("host"), vec![b("rider")], b("king"));
    assert_eq!(wa.unit_names, vec![b("rider")]);
}
