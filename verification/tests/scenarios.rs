//! End-to-end scenarios through `parse_model`.

use graphics::model::ObjLoadError;
use graphics::obj::parse_model;

#[test]
fn quad_fan_split_and_dedup() {
    let input = b"v 0 0 0\nv 1 0 0\nv 1 1 0\nv 0 1 0\nvt 0 0\nvt 1 0\nvt 1 1\nvt 0 1\nvn 0 0 1\nf 1/1/1 2/2/1 3/3/1 4/4/1";
    let model = match parse_model(input, &vec![]) {
        Ok(m) => m,
        Err(_) => panic!("parse failed"),
    };
    assert_eq!(model.meshes.len(), 1);
    assert_eq!(model.materials.len(), 0);
    let mesh = &model.meshes[0];
    assert_eq!(mesh.vertices.len(), 4);
    assert_eq!(mesh.indices, vec![0u32, 1, 2, 0, 2, 3]);
    assert_eq!(mesh.material, None);
    // the first vertex carries the first position, texture coordinate
    // and the shared normal, token for token
    assert_eq!(mesh.vertices[0].position.x, b"0".to_vec());
    assert_eq!(mesh.vertices[0].position.y, b"0".to_vec());
    assert_eq!(mesh.vertices[0].position.z, b"0".to_vec());
    assert_eq!(mesh.vertices[1].position.x, b"1".to_vec());
    assert_eq!(mesh.vertices[1].texture_coords.u, b"1".to_vec());
    assert_eq!(mesh.vertices[1].texture_coords.v, b"0".to_vec());
    assert_eq!(mesh.vertices[3].normal.z, b"1".to_vec());
}

#[test]
fn face_into_missing_pool_entries_is_rejected() {
    // only one position exists, no texture coordinates or normals: the
    // face references positions two and three, which have no entries
    let input = b"v 0 0 0\nf 1 2 3";
    match parse_model(input, &vec![]) {
        Ok(_) => panic!("expected an error"),
        Err(e) => assert_eq!(e, ObjLoadError::InvalidFaceValue),
    }
}

#[test]
fn bare_position_indices_leave_texture_and_normal_zero() {
    let input = b"v 0 0 0\nv 1 0 0\nv 1 1 0\nf 1 2 3";
    let model = parse_model(input, &vec![]).ok().unwrap();
    assert_eq!(model.meshes.len(), 1);
    let mesh = &model.meshes[0];
    assert_eq!(mesh.vertices.len(), 3);
    assert_eq!(mesh.indices, vec![0u32, 1, 2]);
    // absent texture coordinates and normals materialize as zero tokens
    assert_eq!(mesh.vertices[2].texture_coords.u, b"0".to_vec());
    assert_eq!(mesh.vertices[2].texture_coords.v, b"0".to_vec());
    assert_eq!(mesh.vertices[2].normal.x, b"0".to_vec());
    assert_eq!(mesh.vertices[2].position.x, b"1".to_vec());
    assert_eq!(mesh.vertices[2].position.y, b"1".to_vec());
}

#[test]
fn two_segments_resolve_their_own_materials() {
    let mtl = b"newmtl red\nKd 1 0 0\nnewmtl blue\nKd 0 0 1".to_vec();
    let obj = b"v 0 0 0\nv 1 0 0\nv 1 1 0\no first\nusemtl red\nf 1 2 3\no second\nusemtl blue\nf 3 2 1";
    let model = parse_model(obj, &vec![mtl]).ok().unwrap();
    assert_eq!(model.materials.len(), 2);
    assert_eq!(model.materials[0].diffuse_color.x, b"1".to_vec());
    assert_eq!(model.materials[0].diffuse_color.z, b"0".to_vec());
    assert_eq!(model.materials[1].diffuse_color.x, b"0".to_vec());
    assert_eq!(model.materials[1].diffuse_color.z, b"1".to_vec());
    assert_eq!(model.meshes.len(), 2);
    assert_eq!(model.meshes[0].material, Some(0));
    assert_eq!(model.meshes[1].material, Some(1));
}

#[test]
fn unresolved_material_name_is_no_error() {
    let input = b"v 0 0 0\nv 1 0 0\nv 1 1 0\nusemtl unknown_name\nf 1 2 3";
    let model = parse_model(input, &vec![]).ok().unwrap();
    assert_eq!(model.meshes.len(), 1);
    assert_eq!(model.meshes[0].material, None);
}

#[test]
fn five_corner_face_fails_the_parse() {
    let input = b"v 0 0 0\nv 1 0 0\nv 1 1 0\nv 0 1 0\nv 0 0 1\nf 1 2 3 4 5";
    match parse_model(input, &vec![]) {
        Ok(_) => panic!("expected an error"),
        Err(e) => assert_eq!(e, ObjLoadError::InvalidFaceValue),
    }
}

#[test]
fn shared_corners_share_vertices() {
    let input = b"v 0 0 0\nv 1 0 0\nv 1 1 0\nv 0 1 0\nvt 0 0\nvn 0 0 1\nf 1/1/1 2/1/1 3/1/1\nf 1/1/1 3/1/1 4/1/1";
    let model = parse_model(input, &vec![]).ok().unwrap();
    let mesh = &model.meshes[0];
    assert_eq!(mesh.vertices.len(), 4);
    assert_eq!(mesh.indices, vec![0u32, 1, 2, 0, 2, 3]);
}

#[test]
fn points_and_lines_contribute_nothing() {
    let input = b"v 0 0 0\nv 1 0 0\nf 1\nf 1 2";
    let model = parse_model(input, &vec![]).ok().unwrap();
    assert_eq!(model.meshes.len(), 1);
    assert_eq!(model.meshes[0].vertices.len(), 0);
    assert_eq!(model.meshes[0].indices.len(), 0);
}

#[test]
fn points_and_lines_beside_a_triangle() {
    let input = b"v 0 0 0\nv 1 0 0\nv 1 1 0\nf 1\nf 1 2\nf 1 2 3";
    let model = parse_model(input, &vec![]).ok().unwrap();
    assert_eq!(model.meshes[0].vertices.len(), 3);
    assert_eq!(model.meshes[0].indices, vec![0u32, 1, 2]);
}

#[test]
fn segments_deduplicate_independently() {
    // both segments reference the key 1/1/1: each mesh materializes its
    // own copy
    let input = b"v 0 0 0\nv 1 0 0\nv 1 1 0\nvt 0 0\nvn 0 0 1\no a\nf 1/1/1 2/1/1 3/1/1\no b\nf 1/1/1 3/1/1 2/1/1";
    let model = parse_model(input, &vec![]).ok().unwrap();
    assert_eq!(model.meshes.len(), 2);
    assert_eq!(model.meshes[0].vertices.len(), 3);
    assert_eq!(model.meshes[1].vertices.len(), 3);
    assert_eq!(model.meshes[0].vertices[0].position.x, b"0".to_vec());
    assert_eq!(model.meshes[1].vertices[0].position.x, b"0".to_vec());
    assert_eq!(model.meshes[0].indices, vec![0u32, 1, 2]);
    assert_eq!(model.meshes[1].indices, vec![0u32, 1, 2]);
}

#[test]
fn named_group_without_faces_emits_no_mesh() {
    let input = b"v 0 0 0\nv 1 0 0\nv 1 1 0\no empty\no full\nf 1 2 3";
    let model = parse_model(input, &vec![]).ok().unwrap();
    assert_eq!(model.meshes.len(), 1);
}

#[test]
fn empty_input_yields_an_empty_model() {
    let model = parse_model(b"", &vec![]).ok().unwrap();
    assert_eq!(model.meshes.len(), 0);
    assert_eq!(model.materials.len(), 0);
}

#[test]
fn unrecognized_directives_are_ignored() {
    let input = b"# a comment\nv 0 0 0\nv 1 0 0\nv 1 1 0\ns off\nf 1 2 3";
    let model = parse_model(input, &vec![]).ok().unwrap();
    assert_eq!(model.meshes.len(), 1);
    assert_eq!(model.meshes[0].vertices.len(), 3);
}

#[test]
fn carriage_returns_before_newlines_are_stripped() {
    let input = b"v 0 0 0\r\nv 1 0 0\r\nv 1 1 0\r\nf 1 2 3\r\n";
    let model = parse_model(input, &vec![]).ok().unwrap();
    assert_eq!(model.meshes[0].vertices.len(), 3);
    assert_eq!(model.meshes[0].vertices[2].position.y, b"1".to_vec());
}

#[test]
fn position_errors_carry_their_kind() {
    match parse_model(b"v 1 2", &vec![]) {
        Ok(_) => panic!("expected an error"),
        Err(e) => assert_eq!(e, ObjLoadError::InvalidPositionValue),
    }
    match parse_model(b"v a b c", &vec![]) {
        Ok(_) => panic!("expected an error"),
        Err(e) => assert_eq!(e, ObjLoadError::InvalidPositionValue),
    }
    match parse_model(b"v 1 2 3 4", &vec![]) {
        Ok(_) => panic!("expected an error"),
        Err(e) => assert_eq!(e, ObjLoadError::InvalidPositionValue),
    }
}

#[test]
fn texture_and_normal_errors_carry_their_kinds() {
    match parse_model(b"vt 1", &vec![]) {
        Ok(_) => panic!("expected an error"),
        Err(e) => assert_eq!(e, ObjLoadError::InvalidTextureCoordValue),
    }
    match parse_model(b"vn 1 2", &vec![]) {
        Ok(_) => panic!("expected an error"),
        Err(e) => assert_eq!(e, ObjLoadError::InvalidNormalValue),
    }
    // a texture coordinate honors its first two tokens and ignores the rest
    let model = parse_model(b"vt 0.5 0.5 0.0", &vec![]).ok().unwrap();
    assert_eq!(model.meshes.len(), 0);
}

#[test]
fn material_selection_needs_a_name() {
    match parse_model(b"usemtl", &vec![]) {
        Ok(_) => panic!("expected an error"),
        Err(e) => assert_eq!(e, ObjLoadError::InvalidMaterialName),
    }
}
