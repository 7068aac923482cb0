use gloom::GeometryBuffers;
use gloom::ObjEntry;
use gloom::ObjReader;
use gloom::Real;
use nalgebra_glm as glm;

fn r(v: f32) -> Real {
    glm::vec1(v)
}

fn f(v: &Real) -> f32 {
    v.x
}

#[test]
fn parses_vertices_faces_and_comment() {
    let parsed = ObjReader::parse_obj_src("v 1 2 3\nf 1 2 3\n# note\n");
    let positions: Vec<f32> = parsed.positions.iter().map(f).collect();
    assert_eq!(positions, vec![1.0, 2.0, 3.0]);
    assert_eq!(parsed.indices, vec![1, 2, 3]);
    assert!(parsed.diagnostics.is_empty());
}

#[test]
fn parses_floats_and_whitespace_runs() {
    let parsed = ObjReader::parse_obj_src("v  -1.5\t2.25   1e2\r\nf +1 0 4294967295\n");
    let positions: Vec<f32> = parsed.positions.iter().map(f).collect();
    assert_eq!(positions, vec![-1.5, 2.25, 100.0]);
    assert_eq!(parsed.indices, vec![1, 0, 4294967295]);
    assert!(parsed.diagnostics.is_empty());
}

#[test]
fn unknown_directive_is_reported_not_fatal() {
    let parsed = ObjReader::parse_obj_src("v 0 0 0\nvn 1 0 0\nv 1 1 1\n");
    assert_eq!(parsed.positions.len(), 6);
    assert_eq!(parsed.diagnostics.len(), 1);
    assert_eq!(parsed.diagnostics[0].line, 2);
    assert_eq!(parsed.diagnostics[0].code, b"vn".to_vec());
}

#[test]
fn malformed_vertex_line_is_skipped() {
    let parsed = ObjReader::parse_obj_src("v 1 2\nv a b c\nv 1 2 3\n");
    let positions: Vec<f32> = parsed.positions.iter().map(f).collect();
    assert_eq!(positions, vec![1.0, 2.0, 3.0]);
    assert_eq!(parsed.diagnostics.len(), 2);
    assert_eq!(parsed.diagnostics[0].line, 1);
    assert_eq!(parsed.diagnostics[1].line, 2);
}

#[test]
fn face_index_overflow_is_skipped() {
    let parsed = ObjReader::parse_obj_src("f 1 2 4294967296\nf 4 5 6\n");
    assert_eq!(parsed.indices, vec![4, 5, 6]);
    assert_eq!(parsed.diagnostics.len(), 1);
    assert_eq!(parsed.diagnostics[0].code, b"f".to_vec());
}

#[test]
fn blank_lines_are_ignored() {
    let parsed = ObjReader::parse_obj_src("\n\nv 1 2 3\n\n");
    assert_eq!(parsed.positions.len(), 3);
    assert!(parsed.diagnostics.is_empty());
}

#[test]
fn empty_source_yields_empty_streams() {
    let parsed = ObjReader::parse_obj_src("");
    assert!(parsed.positions.is_empty());
    assert!(parsed.indices.is_empty());
    assert!(parsed.diagnostics.is_empty());
}

#[test]
fn from_code_classifies_directives() {
    assert!(matches!(ObjEntry::from_code("v"), Ok(ObjEntry::Vertex)));
    assert!(matches!(ObjEntry::from_code("f"), Ok(ObjEntry::Face)));
    assert!(matches!(ObjEntry::from_code("#"), Ok(ObjEntry::Comment)));
    match ObjEntry::from_code("vt") {
        Err(code) => assert_eq!(code, "vt"),
        Ok(_) => panic!("unknown directive accepted"),
    }
}

#[test]
fn obj_extension_is_required() {
    assert!(ObjReader::has_obj_extension("model.obj"));
    assert!(ObjReader::has_obj_extension("dir/model.v2.obj"));
    assert!(!ObjReader::has_obj_extension("model.txt"));
    assert!(!ObjReader::has_obj_extension(".obj"));
    assert!(!ObjReader::has_obj_extension("dir/.obj"));
    assert!(!ObjReader::has_obj_extension("obj"));
}

#[test]
fn geometry_buffers_accept_aligned_streams() {
    let positions = vec![r(0.0), r(0.0), r(0.0), r(1.0), r(0.0), r(0.0), r(0.0), r(1.0), r(0.0)];
    let indices = vec![0u32, 1, 2];
    let g = GeometryBuffers::from_positions_indices(positions, indices).unwrap();
    assert_eq!(g.vertex_count(), 3);
    assert_eq!(g.index_count(), 3);
}

#[test]
fn geometry_buffers_reject_out_of_range_index() {
    let positions = vec![r(0.0), r(0.0), r(0.0), r(1.0), r(0.0), r(0.0), r(0.0), r(1.0), r(0.0)];
    let indices = vec![0u32, 1, 3];
    assert!(GeometryBuffers::from_positions_indices(positions, indices).is_none());
}

#[test]
fn geometry_buffers_reject_misaligned_streams() {
    let positions = vec![r(0.0), r(0.0)];
    assert!(GeometryBuffers::from_positions_indices(positions, vec![]).is_none());
    let positions = vec![r(0.0), r(0.0), r(0.0)];
    assert!(GeometryBuffers::from_positions_indices(positions, vec![0u32]).is_none());
    let positions = vec![r(0.0), r(0.0), r(0.0)];
    let colors = vec![r(1.0), r(1.0), r(1.0)];
    assert!(GeometryBuffers::new(positions, vec![], colors, vec![]).is_none());
}

#[test]
fn geometry_buffers_accept_colors_and_normals() {
    let positions = vec![r(0.0), r(0.0), r(0.0)];
    let colors = vec![r(1.0), r(0.0), r(0.0), r(1.0)];
    let normals = vec![r(0.0), r(1.0), r(0.0)];
    let g = GeometryBuffers::new(positions, vec![], colors, normals).unwrap();
    assert_eq!(g.vertex_count(), 1);
    assert_eq!(g.colors.len(), 4);
    assert_eq!(g.normals.len(), 3);
}

#[test]
fn parsed_mesh_builds_geometry_buffers() {
    let parsed = ObjReader::parse_obj_src("v 0 0 0\nv 1 0 0\nv 0 1 0\nf 0 1 2\n");
    let g = GeometryBuffers::from_positions_indices(parsed.positions, parsed.indices).unwrap();
    assert_eq!(g.vertex_count(), 3);
    assert_eq!(g.index_count(), 3);
}
