//! Unit tests of the mesh exporter, driven directly with decoded faces.

use graphics::export::{collect_corners, export_mesh, key_eq};
use graphics::face::load_face;
use graphics::model::{Face, Num2, Num3, ObjLoadError, VertexIndices};
use graphics::obj::parse_model;

fn tok(s: &str) -> Vec<u8> {
    s.as_bytes().to_vec()
}

fn num3(x: &str, y: &str, z: &str) -> Num3 {
    Num3 { x: tok(x), y: tok(y), z: tok(z) }
}

fn key(p: usize) -> VertexIndices {
    VertexIndices { position: p, texture_coord: None, normal: None }
}

#[test]
fn quad_corners_fan_split() {
    let quad = Face::Quad(key(0), key(1), key(2), key(3));
    let cs = collect_corners(&vec![quad]);
    assert_eq!(cs.len(), 6);
    let expected = [0usize, 1, 2, 0, 2, 3];
    for (c, e) in cs.iter().zip(expected.iter()) {
        assert!(key_eq(c, &key(*e)));
    }
}

#[test]
fn points_and_lines_yield_no_corners() {
    let cs = collect_corners(&vec![Face::Point(key(0)), Face::Line(key(0), key(1))]);
    assert_eq!(cs.len(), 0);
}

#[test]
fn export_deduplicates_and_indexes() {
    let positions = vec![num3("0", "0", "0"), num3("1", "0", "0"), num3("1", "1", "0"), num3(
        "0", "1", "0",
    )];
    let faces = vec![
        Face::Triangle(key(0), key(1), key(2)),
        Face::Triangle(key(0), key(2), key(3)),
    ];
    let mesh = export_mesh(&faces, &positions, &vec![], &vec![], Some(7)).ok().unwrap();
    assert_eq!(mesh.vertices.len(), 4);
    assert_eq!(mesh.indices, vec![0u32, 1, 2, 0, 2, 3]);
    assert_eq!(mesh.material, Some(7));
    // index validity: every index is below the vertex count
    for i in &mesh.indices {
        assert!((*i as usize) < mesh.vertices.len());
    }
    assert_eq!(mesh.vertices[3].position.y, tok("1"));
    // absent attributes materialize as zero tokens
    assert_eq!(mesh.vertices[0].texture_coords.u, tok("0"));
    assert_eq!(mesh.vertices[0].normal.z, tok("0"));
}

#[test]
fn export_rejects_out_of_range_keys() {
    let positions = vec![num3("0", "0", "0")];
    let faces = vec![Face::Triangle(key(0), key(1), key(2))];
    match export_mesh(&faces, &positions, &vec![], &vec![], None) {
        Ok(_) => panic!("expected an error"),
        Err(e) => assert_eq!(e, ObjLoadError::InvalidFaceValue),
    }
    // a present texture index needs a pool entry
    let k = VertexIndices { position: 0, texture_coord: Some(0), normal: None };
    let faces2 = vec![Face::Triangle(k, k, k)];
    match export_mesh(&faces2, &positions, &vec![], &vec![], None) {
        Ok(_) => panic!("expected an error"),
        Err(e) => assert_eq!(e, ObjLoadError::InvalidFaceValue),
    }
    let texture_coords = vec![Num2 { u: tok("0"), v: tok("0") }];
    assert!(export_mesh(&faces2, &positions, &texture_coords, &vec![], None).is_ok());
}

#[test]
fn keys_compare_by_all_three_indices() {
    let a = VertexIndices { position: 1, texture_coord: Some(2), normal: None };
    let b = VertexIndices { position: 1, texture_coord: Some(2), normal: None };
    let c = VertexIndices { position: 1, texture_coord: Some(0), normal: None };
    let d = VertexIndices { position: 1, texture_coord: None, normal: Some(2) };
    assert!(key_eq(&a, &b));
    assert!(!key_eq(&a, &c));
    assert!(!key_eq(&a, &d));
}

#[test]
fn decoded_faces_drive_the_exporter() {
    let f = load_face(&[tok("1/1/1"), tok("2/1/1"), tok("3/1/1")]).ok().unwrap();
    let positions = vec![num3("0", "0", "0"), num3("1", "0", "0"), num3("1", "1", "0")];
    let texture_coords = vec![Num2 { u: tok("0"), v: tok("0") }];
    let normals = vec![num3("0", "0", "1")];
    let mesh = export_mesh(&vec![f], &positions, &texture_coords, &normals, None).ok().unwrap();
    assert_eq!(mesh.vertices.len(), 3);
    assert_eq!(mesh.vertices[1].normal.z, tok("1"));
}

#[test]
fn every_parsed_mesh_has_valid_indices() {
    let input = b"v 0 0 0\nv 1 0 0\nv 1 1 0\nv 0 1 0\no a\nf 1 2 3 4\nf 1 2 3\no b\nf 4 3 2";
    let model = parse_model(input, &vec![]).ok().unwrap();
    assert_eq!(model.meshes.len(), 2);
    for mesh in &model.meshes {
        for i in &mesh.indices {
            assert!((*i as usize) < mesh.vertices.len());
        }
    }
}
