use ta_render::assets::{name_of_path, shader_base_of_path, AssetKind, AssetRegistry};
use ta_render::error::EngineError;
use ta_render::unit::{build_catalog, RenderUnit, UnitDescriptor};

fn b(s: &str) -> Vec<u8> {
    s.as_bytes().to_vec()
}

fn registry() -> AssetRegistry {
    let mut reg = AssetRegistry::new();
    for (kind, path) in [
        (AssetKind::Animation, "assets/animations/idle.json"),
        (AssetKind::Camera, "assets/cameras/main.json"),
        (AssetKind::Model, "assets/models/flag.mesh"),
        (AssetKind::Projection, "assets/projections/default.json"),
        (AssetKind::Shader, "assets/shaders/flag.vs"),
        (AssetKind::Shader, "assets/shaders/flag.fs"),
        (AssetKind::Texture, "assets/textures/flag.png"),
    ] {
        reg.register_file(kind, &b(path));
    }
    reg
}

fn descriptor(name: &str, shader: &str) -> UnitDescriptor {
    UnitDescriptor {
        name: b(name),
        animation: b("idle"),
        camera: b("main"),
        model: b("flag"),
        projection: b("default"),
        shader: b(shader),
        texture: b("flag"),
    }
}

#[test]
fn asset_name_is_file_stem() {
    assert_eq!(name_of_path(&b("assets/models/sub/flag.mesh")), b("flag"));
    assert_eq!(name_of_path(&b("flag.tar.gz")), b("flag"));
    assert_eq!(name_of_path(&b("dir/noext")), b("noext"));
    assert_eq!(name_of_path(&b("dir/")), b(""));
    assert_eq!(shader_base_of_path(&b("assets/shaders/2d_text.vs")), b("assets/shaders/2d_text"));
}

#[test]
fn shader_pair_collapses_to_one_program() {
    let reg = registry();
    assert_eq!(reg.shaders.len(), 1);
    assert_eq!(reg.shaders[0].name, b("flag"));
    assert_eq!(reg.shaders[0].asset.shader_path, b("assets/shaders/flag"));
    assert!(!reg.shaders[0].asset.loaded);
}

#[test]
fn later_file_replaces_earlier_of_same_name() {
    let mut reg = registry();
    reg.register_file(AssetKind::Texture, &b("assets/textures/more/flag.jpg"));
    assert_eq!(reg.textures.len(), 1);
    assert_eq!(reg.textures[0].asset.texture_path, b("assets/textures/more/flag.jpg"));
}

#[test]
fn resolve_finds_by_name() {
    let reg = registry();
    assert_eq!(reg.resolve(AssetKind::Model, &b("flag")).ok(), Some(0));
    match reg.resolve(AssetKind::Model, &b("tree")) {
        Err(EngineError::AssetNotFound { category, name }) => {
            assert_eq!(category, AssetKind::Model);
            assert_eq!(name, b("tree"));
        }
        _ => panic!("expected AssetNotFound"),
    }
}

#[test]
fn unresolved_shader_aborts_catalog() {
    let reg = registry();
    let descs = vec![descriptor("flag", "flag"), descriptor("banner", "nonexistent_shader"), descriptor("pole", "other")];
    match build_catalog(&reg, &descs) {
        Err(EngineError::AssetNotFound { category, name }) => {
            assert_eq!(category, AssetKind::Shader);
            assert_eq!(name, b("nonexistent_shader"));
        }
        _ => panic!("expected AssetNotFound"),
    }
}

#[test]
fn catalog_resolves_every_unit_empty() {
    let reg = registry();
    let units = build_catalog(&reg, &vec![descriptor("flag", "flag")]).ok().unwrap();
    assert_eq!(units.len(), 1);
    assert_eq!(units[0].name, b("flag"));
    assert_eq!(units[0].model, 0);
    assert!(units[0].render_objects.is_empty());
}

#[test]
fn resolve_reports_first_missing_reference() {
    let reg = registry();
    let mut d = descriptor("flag", "flag");
    d.camera = b("side");
    d.texture = b("none");
    match RenderUnit::resolve(&reg, &d) {
        Err(EngineError::AssetNotFound { category, name }) => {
            assert_eq!(category, AssetKind::Camera);
            assert_eq!(name, b("side"));
        }
        _ => panic!("expected AssetNotFound"),
    }
}
