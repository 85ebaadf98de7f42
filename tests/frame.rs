use ta_render::assets::{AssetKind, AssetRegistry};
use ta_render::command::{GpuCommand, RenderObject, Rgb, Vec3};
use ta_render::engine::{Engine, InstanceHandle};
use ta_render::error::EngineError;
use ta_render::font::{render_text, Glyph};
use ta_render::graphic::{Graphic, QueueEntry, Upload};
use ta_render::mesh::parse_mesh;
use ta_render::unit::{build_catalog, UnitDescriptor};

fn b(s: &str) -> Vec<u8> {
    s.as_bytes().to_vec()
}

fn v(x: i32, y: i32, z: i32) -> Vec3 {
    Vec3 { x, y, z }
}

fn obj(x: i32) -> RenderObject {
    RenderObject::new(v(x, 0, 0), v(0, 0, 0), 0, v(1, 1, 1))
}

fn unit(name: &str, model: &str, texture: &str) -> UnitDescriptor {
    UnitDescriptor {
        name: b(name),
        animation: b("idle"),
        camera: b("main"),
        model: b(model),
        projection: b("default"),
        shader: b("flag"),
        texture: b(texture),
    }
}

fn graphic() -> Graphic {
    let mut reg = AssetRegistry::new();
    for (kind, path) in [
        (AssetKind::Animation, "a/animations/idle.json"),
        (AssetKind::Camera, "a/cameras/main.json"),
        (AssetKind::Model, "a/models/flag.mesh"),
        (AssetKind::Model, "a/models/tower.mesh"),
        (AssetKind::Projection, "a/projections/default.json"),
        (AssetKind::Projection, "a/projections/2d_text.json"),
        (AssetKind::Shader, "a/shaders/flag.vs"),
        (AssetKind::Shader, "a/shaders/flag.fs"),
        (AssetKind::Shader, "a/shaders/2d_text.vs"),
        (AssetKind::Shader, "a/shaders/2d_text.fs"),
        (AssetKind::Texture, "a/textures/flag.png"),
        (AssetKind::Texture, "a/textures/stone.png"),
        (AssetKind::Font, "a/fonts/prince.ttf"),
    ] {
        reg.register_file(kind, &b(path));
    }
    let units = build_catalog(&reg, &vec![unit("flag", "flag", "flag"), unit("tower", "tower", "stone")]).ok().unwrap();
    Graphic::new(reg, units)
}

fn glyphs() -> Vec<Glyph> {
    (0..128u32)
        .map(|c| Glyph { texture_id: 1000 + c, width: 10, rows: 12, left: 1, top: 10, advance: 64 * (c % 7 + 5) })
        .collect()
}

/// Performs the uploads with fixed handles: mesh `i` gets vao 10+i with a 6-index mesh,
/// shader `i` program 20+i, texture `i` id 30+i, font `i` the glyphs above.
fn perform(g: &mut Graphic, ups: &[Upload]) {
    for u in ups {
        match *u {
            Upload::Mesh(i) => {
                let mesh = parse_mesh(&vec![b("Indices"), b("0"), b("1"), b("2"), b("2"), b("3"), b("0")]).ok().unwrap();
                g.mesh_uploaded(i, 10 + i as u32, &mesh);
            }
            Upload::Shader(i) => g.shader_uploaded(i, 20 + i as u32),
            Upload::Texture(i) => g.texture_uploaded(i, 30 + i as u32),
            Upload::Font(i) => g.font_uploaded(i, glyphs(), 40, 41),
        }
    }
}

#[test]
fn flag_scenario_loads_once_and_removes_one() {
    let mut g = graphic();
    let first = g.add_object(&b("flag"), obj(0)).ok().unwrap();
    assert_eq!(first, vec![Upload::Mesh(0), Upload::Shader(0), Upload::Texture(0)]);
    perform(&mut g, &first);
    let second = g.add_object(&b("flag"), obj(10)).ok().unwrap();
    assert!(second.is_empty());
    assert_eq!(g.render_units[0].render_objects, vec![obj(0), obj(10)]);
    assert_eq!(g.render_queue, vec![QueueEntry::Unit(0)]);
    assert!(g.remove_object(&b("flag"), v(0, 0, 0)).is_ok());
    assert_eq!(g.render_units[0].render_objects, vec![obj(10)]);
    let third = g.add_object(&b("flag"), obj(20)).ok().unwrap();
    assert!(third.is_empty());
}

#[test]
fn unit_without_instances_draws_nothing() {
    let mut g = graphic();
    assert!(g.render_units[0].render(&g.registry).is_empty());
    let ups = g.add_object(&b("flag"), obj(0)).ok().unwrap();
    perform(&mut g, &ups);
    g.remove_object(&b("flag"), v(0, 0, 0)).ok().unwrap();
    assert!(g.render_units[0].render(&g.registry).is_empty());
    assert!(g.render().is_empty());
}

#[test]
fn add_then_remove_restores_instances() {
    let mut g = graphic();
    let ups = g.add_object(&b("tower"), obj(5)).ok().unwrap();
    perform(&mut g, &ups);
    let before = g.render_units[1].render_objects.clone();
    g.add_object(&b("tower"), obj(7)).ok().unwrap();
    g.remove_object(&b("tower"), v(7, 0, 0)).ok().unwrap();
    assert_eq!(g.render_units[1].render_objects, before);
    g.remove_object(&b("tower"), v(5, 0, 0)).ok().unwrap();
    assert!(g.render_units[1].render_objects.is_empty());
}

#[test]
fn shared_shader_uploads_once_across_units() {
    let mut g = graphic();
    let a = g.add_object(&b("flag"), obj(0)).ok().unwrap();
    let t = g.add_object(&b("tower"), obj(0)).ok().unwrap();
    assert_eq!(a, vec![Upload::Mesh(0), Upload::Shader(0), Upload::Texture(0)]);
    assert_eq!(t, vec![Upload::Mesh(1), Upload::Texture(1)]);
}

#[test]
fn frame_follows_queue_order_and_bind_order() {
    let mut g = graphic();
    let t = g.add_object(&b("tower"), obj(3)).ok().unwrap();
    perform(&mut g, &t);
    let f = g.add_object(&b("flag"), obj(4)).ok().unwrap();
    perform(&mut g, &f);
    let frame = g.render();
    let expected = vec![
        GpuCommand::UseProgram { program: 20 },
        GpuCommand::BindProjection { projection: 0 },
        GpuCommand::BindCamera { camera: 0 },
        GpuCommand::BindTexture { texture: 31 },
        GpuCommand::SetModelMatrix { object: obj(3) },
        GpuCommand::BindVertexArray { vao: 11 },
        GpuCommand::DrawElements { count: 6 },
        GpuCommand::UseProgram { program: 20 },
        GpuCommand::BindProjection { projection: 0 },
        GpuCommand::BindCamera { camera: 0 },
        GpuCommand::BindTexture { texture: 30 },
        GpuCommand::SetModelMatrix { object: obj(4) },
        GpuCommand::BindVertexArray { vao: 10 },
        GpuCommand::DrawElements { count: 6 },
    ];
    assert_eq!(frame, expected);
}

#[test]
fn unit_not_uploaded_is_skipped() {
    let mut g = graphic();
    g.add_object(&b("flag"), obj(0)).ok().unwrap();
    assert!(g.render().is_empty());
}

#[test]
fn unknown_unit_and_missing_instance_are_errors() {
    let mut g = graphic();
    assert!(matches!(g.add_object(&b("castle"), obj(0)), Err(EngineError::UnknownRenderUnit { .. })));
    assert!(matches!(g.remove_object(&b("castle"), v(0, 0, 0)), Err(EngineError::UnknownRenderUnit { .. })));
    g.add_object(&b("flag"), obj(0)).ok().unwrap();
    match g.remove_object(&b("flag"), v(1, 0, 0)) {
        Err(EngineError::InstanceNotFound { unit }) => assert_eq!(unit, b("flag")),
        _ => panic!("expected InstanceNotFound"),
    }
    assert_eq!(g.render_units[0].render_objects.len(), 1);
}

#[test]
fn remove_takes_first_instance_at_position() {
    let mut g = graphic();
    let a = RenderObject::new(v(1, 1, 1), v(0, 0, 0), 0, v(1, 1, 1));
    let c = RenderObject::new(v(1, 1, 1), v(0, 0, 1), 90, v(2, 2, 2));
    g.add_object(&b("flag"), a).ok().unwrap();
    g.add_object(&b("flag"), c).ok().unwrap();
    g.remove_object(&b("flag"), v(1, 1, 1)).ok().unwrap();
    assert_eq!(g.render_units[0].render_objects, vec![c]);
}

#[test]
fn text_ab_makes_two_quads_and_advances_pen() {
    let gl = glyphs();
    let text: Vec<char> = "AB".chars().collect();
    let cmds = render_text(&gl, 40, 41, Rgb { r: 255, g: 0, b: 0 }, &text, (100, 50), 2);
    assert_eq!(cmds.len(), 4);
    let a = gl['A' as usize];
    let bb = gl['B' as usize];
    assert_eq!(
        cmds[1],
        GpuCommand::DrawGlyph { texture: a.texture_id, vbo: 41, x: 102, y: 46, width: 20, height: 24 }
    );
    let pen_b = 100 + (a.advance as i128 / 64) * 2;
    assert_eq!(
        cmds[2],
        GpuCommand::DrawGlyph { texture: bb.texture_id, vbo: 41, x: pen_b + 2, y: 46, width: 20, height: 24 }
    );
    assert_eq!(cmds[0], GpuCommand::BeginText { color: Rgb { r: 255, g: 0, b: 0 }, vao: 40 });
    assert_eq!(cmds[3], GpuCommand::EndText);
}

#[test]
fn text_skips_characters_without_glyph() {
    let gl = glyphs();
    let text: Vec<char> = "AéB".chars().collect();
    let cmds = render_text(&gl, 40, 41, Rgb { r: 0, g: 0, b: 0 }, &text, (0, 0), 1);
    assert_eq!(cmds.len(), 4);
}

#[test]
fn text_run_is_queued_after_units() {
    let mut g = graphic();
    let u = g.add_object(&b("flag"), obj(0)).ok().unwrap();
    perform(&mut g, &u);
    let t = g.add_text(&b("prince"), "A".chars().collect(), Rgb { r: 1, g: 2, b: 3 }, (0, 0), 1).ok().unwrap();
    assert_eq!(t, vec![Upload::Shader(1), Upload::Font(0)]);
    perform(&mut g, &t);
    assert_eq!(g.render_queue, vec![QueueEntry::Unit(0), QueueEntry::Text(0)]);
    let frame = g.render();
    assert_eq!(frame.len(), 7 + 2 + 3);
    assert_eq!(frame[7], GpuCommand::UseProgram { program: 21 });
    assert_eq!(frame[8], GpuCommand::BindProjection { projection: 1 });
    let again = g.add_text(&b("prince"), "B".chars().collect(), Rgb { r: 1, g: 2, b: 3 }, (0, 0), 1).ok().unwrap();
    assert!(again.is_empty());
}

#[test]
fn text_with_unknown_font_is_asset_not_found() {
    let mut g = graphic();
    match g.add_text(&b("gothic"), "A".chars().collect(), Rgb { r: 1, g: 2, b: 3 }, (0, 0), 1) {
        Err(EngineError::AssetNotFound { category, name }) => {
            assert_eq!(category, AssetKind::Font);
            assert_eq!(name, b("gothic"));
        }
        _ => panic!("expected AssetNotFound"),
    }
    assert!(g.render_queue.is_empty());
}

#[test]
fn engine_registers_and_unregisters_instances() {
    let mut e = Engine::new(graphic(), 1920, 1080);
    let r1 = e.register_render_object(&b("flag"), v(0, 0, 0), v(0, 0, 0), 0, v(1, 1, 1)).ok().unwrap();
    let r2 = e.register_render_object(&b("flag"), v(10, 0, 0), v(0, 0, 0), 0, v(1, 1, 1)).ok().unwrap();
    assert_eq!(r1.uploads, vec![Upload::Mesh(0), Upload::Shader(0), Upload::Texture(0)]);
    assert!(r2.uploads.is_empty());
    assert_eq!(e.graphic.render_units[0].render_objects.len(), 2);
    e.unregister_render_object(&r1.handle).ok().unwrap();
    assert_eq!(e.graphic.render_units[0].render_objects, vec![obj(10)]);
    assert!(e.unregister_render_object(&InstanceHandle { unit: b("flag"), position: v(0, 0, 0) }).is_err());
    assert!(e.render_tick().is_empty());
    perform(&mut e.graphic, &r1.uploads);
    assert_eq!(e.render_tick().len(), 7);
}
