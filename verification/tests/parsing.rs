//! Unit tests of the token, number and face parsers.

use graphics::bytes::{split_bytes, split_lines, tok_eq};
use graphics::face::load_face;
use graphics::model::{Face, ObjLoadError};
use graphics::numbers::{float_token, load_num, parse_usize};
use graphics::obj::mtllib_paths;

#[test]
fn split_keeps_empty_pieces() {
    let pieces = split_bytes(b"a  b", 32);
    assert_eq!(pieces.len(), 3);
    assert_eq!(pieces[0], b"a".to_vec());
    assert_eq!(pieces[1], b"".to_vec());
    assert_eq!(pieces[2], b"b".to_vec());
    let single = split_bytes(b"", 32);
    assert_eq!(single.len(), 1);
    assert_eq!(single[0], b"".to_vec());
}

#[test]
fn lines_drop_a_final_newline_and_carriage_returns() {
    let lines = split_lines(b"a\r\nb\nc");
    assert_eq!(lines.len(), 3);
    assert_eq!(lines[0], b"a".to_vec());
    assert_eq!(lines[1], b"b".to_vec());
    assert_eq!(lines[2], b"c".to_vec());
    let lines2 = split_lines(b"a\n\nb\n");
    assert_eq!(lines2.len(), 3);
    assert_eq!(lines2[1], b"".to_vec());
    assert_eq!(split_lines(b"").len(), 0);
    // a carriage return not before a newline stays
    let lines3 = split_lines(b"a\rb");
    assert_eq!(lines3[0], b"a\rb".to_vec());
}

#[test]
fn token_equality_is_by_bytes() {
    assert!(tok_eq(&b"abc".to_vec(), &b"abc".to_vec()));
    assert!(!tok_eq(&b"abc".to_vec(), &b"abd".to_vec()));
    assert!(!tok_eq(&b"abc".to_vec(), &b"ab".to_vec()));
}

#[test]
fn unsigned_tokens_parse_to_their_value() {
    assert_eq!(parse_usize(&b"0".to_vec()), Some(0));
    assert_eq!(parse_usize(&b"42".to_vec()), Some(42));
    assert_eq!(parse_usize(&b"+7".to_vec()), Some(7));
    assert_eq!(parse_usize(&b"".to_vec()), None);
    assert_eq!(parse_usize(&b"+".to_vec()), None);
    assert_eq!(parse_usize(&b"4x".to_vec()), None);
    assert_eq!(parse_usize(&b"-3".to_vec()), None);
    assert_eq!(parse_usize(&b"99999999999999999999999999".to_vec()), None);
}

#[test]
fn numbers_over_the_32_bit_range_are_errors() {
    let t1 = b"4294967295".to_vec();
    assert_eq!(load_num(Some(&t1)), Ok(4294967295));
    let t2 = b"4294967296".to_vec();
    assert_eq!(load_num(Some(&t2)), Err(()));
    let t3 = b"abc".to_vec();
    assert_eq!(load_num(Some(&t3)), Err(()));
    assert_eq!(load_num(None), Err(()));
}

#[test]
fn real_number_tokens_follow_the_grammar() {
    for good in ["1", "-1.5", ".5", "5.", "0", "1e5", "1E-5", "3.25e+2", "+inf", "NaN", "nan",
        "Infinity", "-infinity"] {
        assert!(float_token(&good.as_bytes().to_vec()), "rejected {}", good);
    }
    for bad in ["", ".", "+", "e5", "1e", "1e+", "1.2.3", "nan2", "--1", "1x", "in", "infini",
        " 1"] {
        assert!(!float_token(&bad.as_bytes().to_vec()), "accepted {}", bad);
    }
}

#[test]
fn faces_classify_by_corner_count() {
    let p = load_face(&[b"1".to_vec()]);
    assert!(matches!(p, Ok(Face::Point(_))));
    let l = load_face(&[b"1".to_vec(), b"2".to_vec()]);
    assert!(matches!(l, Ok(Face::Line(_, _))));
    let t = load_face(&[b"1".to_vec(), b"2".to_vec(), b"3".to_vec()]);
    assert!(matches!(t, Ok(Face::Triangle(_, _, _))));
    let q = load_face(&[b"1".to_vec(), b"2".to_vec(), b"3".to_vec(), b"4".to_vec()]);
    assert!(matches!(q, Ok(Face::Quad(_, _, _, _))));
    let none = load_face(&[]);
    assert!(matches!(none, Err(ObjLoadError::InvalidFaceValue)));
    let five = load_face(&[
        b"1".to_vec(),
        b"2".to_vec(),
        b"3".to_vec(),
        b"4".to_vec(),
        b"5".to_vec(),
    ]);
    assert!(matches!(five, Err(ObjLoadError::InvalidFaceValue)));
}

#[test]
fn corners_convert_to_zero_based_indices() {
    match load_face(&[b"3/2/1".to_vec()]) {
        Ok(Face::Point(k)) => {
            assert_eq!(k.position, 2);
            assert_eq!(k.texture_coord, Some(1));
            assert_eq!(k.normal, Some(0));
        },
        _ => panic!("expected a point"),
    }
}

#[test]
fn absent_corner_fields_stay_absent() {
    match load_face(&[b"2//5".to_vec()]) {
        Ok(Face::Point(k)) => {
            assert_eq!(k.position, 1);
            assert_eq!(k.texture_coord, None);
            assert_eq!(k.normal, Some(4));
        },
        _ => panic!("expected a point"),
    }
    match load_face(&[b"2/3".to_vec()]) {
        Ok(Face::Point(k)) => {
            assert_eq!(k.texture_coord, Some(2));
            assert_eq!(k.normal, None);
        },
        _ => panic!("expected a point"),
    }
}

#[test]
fn malformed_corners_are_rejected() {
    // a corner must name a position
    assert!(matches!(load_face(&[b"".to_vec()]), Err(ObjLoadError::InvalidFaceValue)));
    assert!(matches!(load_face(&[b"/2/3".to_vec()]), Err(ObjLoadError::InvalidFaceValue)));
    // the text's indices are 1-based: zero has no 0-based form
    assert!(matches!(load_face(&[b"0".to_vec()]), Err(ObjLoadError::InvalidFaceValue)));
    // more than three fields
    assert!(matches!(load_face(&[b"1/2/3/4".to_vec()]), Err(ObjLoadError::InvalidFaceValue)));
    // a non-numeric index
    assert!(matches!(load_face(&[b"1/x/3".to_vec()]), Err(ObjLoadError::InvalidFaceValue)));
}

#[test]
fn library_references_are_collected_in_order() {
    let ps = mtllib_paths(b"mtllib a.mtl\nv 0 0 0\nmtllib b.mtl").ok().unwrap();
    assert_eq!(ps.len(), 2);
    assert_eq!(ps[0], b"a.mtl".to_vec());
    assert_eq!(ps[1], b"b.mtl".to_vec());
    assert_eq!(mtllib_paths(b"v 0 0 0").ok().unwrap().len(), 0);
    match mtllib_paths(b"mtllib") {
        Ok(_) => panic!("expected an error"),
        Err(e) => assert_eq!(e, ObjLoadError::InvalidMaterialLib),
    }
}
