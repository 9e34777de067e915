//! Edge cases of the directive grammar through the public loader.

use graphics::model::ObjLoadError;
use graphics::obj::parse_model;

#[test]
fn numeric_tokens_allow_the_full_grammar() {
    // exponents, bare fractions, trailing points, signs and special words
    let input = b"v 1e5 .5 -3.\nv +0.25E-2 inf NaN\nv -infinity 0 1\nf 1 2 3";
    let model = parse_model(input, &vec![]).ok().unwrap();
    let mesh = &model.meshes[0];
    assert_eq!(mesh.vertices[0].position.x, b"1e5".to_vec());
    assert_eq!(mesh.vertices[0].position.y, b".5".to_vec());
    assert_eq!(mesh.vertices[0].position.z, b"-3.".to_vec());
    assert_eq!(mesh.vertices[1].position.x, b"+0.25E-2".to_vec());
    assert_eq!(mesh.vertices[1].position.y, b"inf".to_vec());
    assert_eq!(mesh.vertices[2].position.x, b"-infinity".to_vec());
}

#[test]
fn malformed_numeric_tokens_are_rejected() {
    for bad in ["v 1.2.3 0 0", "v 1e 0 0", "v . 0 0", "v -- 0 0", "v infx 0 0"] {
        match parse_model(bad.as_bytes(), &vec![]) {
            Ok(_) => panic!("accepted {}", bad),
            Err(e) => assert_eq!(e, ObjLoadError::InvalidPositionValue),
        }
    }
}

#[test]
fn texture_coordinates_ignore_extra_tokens() {
    // only the first two tokens are honored, whatever follows
    let input = b"v 0 0 0\nv 1 0 0\nv 1 1 0\nvt 0.5 0.5 0.0 xyz\nf 1/1 2/1 3/1";
    let model = parse_model(input, &vec![]).ok().unwrap();
    assert_eq!(model.meshes[0].vertices[0].texture_coords.u, b"0.5".to_vec());
}

#[test]
fn the_block_before_the_first_boundary_is_a_segment() {
    let input = b"v 0 0 0\nv 1 0 0\nv 1 1 0\nf 1 2 3\no named\nf 3 2 1";
    let model = parse_model(input, &vec![]).ok().unwrap();
    assert_eq!(model.meshes.len(), 2);
    assert_eq!(model.meshes[0].vertices.len(), 3);
    assert_eq!(model.meshes[1].vertices.len(), 3);
}

#[test]
fn material_selection_does_not_cross_boundaries() {
    let mtl = b"newmtl red\nKd 1 0 0".to_vec();
    let obj = b"v 0 0 0\nv 1 0 0\nv 1 1 0\nusemtl red\nf 1 2 3\no next\nf 3 2 1";
    let model = parse_model(obj, &vec![mtl]).ok().unwrap();
    assert_eq!(model.meshes.len(), 2);
    assert_eq!(model.meshes[0].material, Some(0));
    assert_eq!(model.meshes[1].material, None);
}

#[test]
fn pools_grow_across_segments() {
    // the second segment's face references positions from both blocks
    let input = b"v 0 0 0\no a\nv 1 0 0\nv 1 1 0\nf 1 2 3";
    let model = parse_model(input, &vec![]).ok().unwrap();
    assert_eq!(model.meshes.len(), 1);
    assert_eq!(model.meshes[0].vertices.len(), 3);
    assert_eq!(model.meshes[0].vertices[0].position.x, b"0".to_vec());
    assert_eq!(model.meshes[0].vertices[2].position.y, b"1".to_vec());
}

#[test]
fn a_face_may_reference_positions_defined_after_it() {
    // pools are read at the segment's end, not at the face's line
    let input = b"f 1 2 3\nv 0 0 0\nv 1 0 0\nv 1 1 0";
    let model = parse_model(input, &vec![]).ok().unwrap();
    assert_eq!(model.meshes[0].vertices.len(), 3);
}

#[test]
fn index_zero_in_a_face_is_rejected() {
    let input = b"v 0 0 0\nf 0 1 1";
    match parse_model(input, &vec![]) {
        Ok(_) => panic!("expected an error"),
        Err(e) => assert_eq!(e, ObjLoadError::InvalidFaceValue),
    }
}

#[test]
fn double_spaces_make_empty_tokens() {
    // an empty token is not a number: the position directive rejects it
    match parse_model(b"v  1 2 3", &vec![]) {
        Ok(_) => panic!("expected an error"),
        Err(e) => assert_eq!(e, ObjLoadError::InvalidPositionValue),
    }
    // an empty line is ignored
    assert!(parse_model(b"\n\nv 1 2 3\n", &vec![]).is_ok());
}

#[test]
fn repeated_corners_in_one_face_share_a_vertex() {
    let input = b"v 0 0 0\nf 1 1 1";
    let model = parse_model(input, &vec![]).ok().unwrap();
    assert_eq!(model.meshes[0].vertices.len(), 1);
    assert_eq!(model.meshes[0].indices, vec![0u32, 0, 0]);
}
