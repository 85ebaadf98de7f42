use ta_render::descriptor::{parse_projection_kind, parse_unit_descriptor, ProjectionKind};
use ta_render::error::EngineError;

fn b(s: &str) -> Vec<u8> {
    s.as_bytes().to_vec()
}

#[test]
fn unit_descriptor_reads_six_names() {
    let text = b(r#"{"animation":"idle","camera":"main","model":"flag","projection":"default","shader":"flag","texture":"cloth","extra":3}"#);
    let d = parse_unit_descriptor(&b("flag"), &text).ok().unwrap();
    assert_eq!(d.name, b("flag"));
    assert_eq!(d.animation, b("idle"));
    assert_eq!(d.camera, b("main"));
    assert_eq!(d.model, b("flag"));
    assert_eq!(d.projection, b("default"));
    assert_eq!(d.shader, b("flag"));
    assert_eq!(d.texture, b("cloth"));
}

#[test]
fn unit_descriptor_missing_field_is_named() {
    let text = b(r#"{"animation":"idle","camera":"main","model":5,"projection":"default","shader":"flag"}"#);
    match parse_unit_descriptor(&b("flag"), &text) {
        Err(EngineError::MalformedDescriptor { field }) => assert_eq!(field, b("model")),
        _ => panic!("expected MalformedDescriptor"),
    }
}

#[test]
fn unit_descriptor_not_json_is_malformed() {
    match parse_unit_descriptor(&b("flag"), &b("not json")) {
        Err(EngineError::MalformedDescriptor { field }) => assert!(field.is_empty()),
        _ => panic!("expected MalformedDescriptor"),
    }
}

#[test]
fn projection_kind_from_type_field() {
    let o = b(r#"{"type":"orthogonal","near_plane":0.1,"far_plane":100.0}"#);
    assert_eq!(parse_projection_kind(&o).ok(), Some(ProjectionKind::Orthogonal));
    let p = b(r#"{"type":"perspective","near_plane":0.1,"far_plane":100.0,"fov":45.0}"#);
    assert_eq!(parse_projection_kind(&p).ok(), Some(ProjectionKind::Perspective));
    assert!(matches!(parse_projection_kind(&b(r#"{"type":"fisheye"}"#)), Err(EngineError::UnknownProjectionType)));
    match parse_projection_kind(&b(r#"{"near_plane":0.1}"#)) {
        Err(EngineError::MalformedDescriptor { field }) => assert_eq!(field, b("type")),
        _ => panic!("expected MalformedDescriptor"),
    }
}
