use ta_render::error::EngineError;
use ta_render::mesh::{parse_mesh, parse_u32, split_tokens};

fn bad_line(text: &str) -> Option<usize> {
    match parse_mesh(&lines(text)) {
        Err(EngineError::MalformedMesh { line }) => Some(line),
        _ => None,
    }
}

fn lines(text: &str) -> Vec<Vec<u8>> {
    text.lines().map(|l| l.as_bytes().to_vec()).collect()
}

#[test]
fn mesh_counts_vertex_and_index_lines() {
    let text = "Vertices\n0 0 0 0 0 1 0 0\n1 0 0 0 0 1 1 0\n0 1 0 0 0 1 0 1\nIndices\n0\n1\n2\n2\n";
    let mesh = parse_mesh(&lines(text)).ok().unwrap();
    assert_eq!(mesh.vertex_count(), 3);
    assert_eq!(mesh.index_count(), 4);
    assert_eq!(mesh.indices, vec![0, 1, 2, 2]);
    assert_eq!(mesh.vertices[1][0], b"1".to_vec());
    assert_eq!(mesh.vertices[2][7], b"1".to_vec());
}

#[test]
fn mesh_vertex_line_keeps_first_eight_fields() {
    let text = "Vertices\n1 2 3 4 5 6 7 8 9\n";
    let mesh = parse_mesh(&lines(text)).ok().unwrap();
    assert_eq!(mesh.vertices[0].len(), 8);
    assert_eq!(mesh.vertices[0][7], b"8".to_vec());
}

#[test]
fn mesh_short_vertex_line_is_rejected() {
    let text = "Vertices\n1 2 3 4 5 6 7\n";
    assert_eq!(bad_line(text), Some(1));
}

#[test]
fn mesh_bad_index_is_rejected() {
    let text = "Vertices\nIndices\n0\n-1\n";
    assert_eq!(bad_line(text), Some(3));
    let text = "Indices\n\n";
    assert_eq!(bad_line(text), Some(1));
    let text = "Indices\n4294967296\n";
    assert_eq!(bad_line(text), Some(1));
}

#[test]
fn mesh_empty_text_is_empty_mesh() {
    let mesh = parse_mesh(&Vec::new()).ok().unwrap();
    assert_eq!(mesh.vertex_count(), 0);
    assert_eq!(mesh.index_count(), 0);
}

#[test]
fn unsigned_parse_follows_std() {
    assert_eq!(parse_u32(&b"42".to_vec()), Some(42));
    assert_eq!(parse_u32(&b"+7".to_vec()), Some(7));
    assert_eq!(parse_u32(&b"4294967295".to_vec()), Some(4294967295));
    assert_eq!(parse_u32(&b"4294967296".to_vec()), None);
    assert_eq!(parse_u32(&b"+".to_vec()), None);
    assert_eq!(parse_u32(&b"".to_vec()), None);
    assert_eq!(parse_u32(&b"1x".to_vec()), None);
}

#[test]
fn tokens_split_on_whitespace() {
    let t = split_tokens(&b"  a\tbc  d \r".to_vec());
    assert_eq!(t, vec![b"a".to_vec(), b"bc".to_vec(), b"d".to_vec()]);
    assert!(split_tokens(&b"   ".to_vec()).is_empty());
}
