//! Unit tests of the material library parser.

use graphics::model::{Material, MaterialIllumination, ObjLoadError, load_illumination_mode};
use graphics::mtl::{load_material, load_mtl};
use graphics::obj::parse_model;

#[test]
fn illumination_modes_cover_zero_through_ten() {
    assert_eq!(load_illumination_mode(0), Some(MaterialIllumination::ColorAmbientOff));
    assert_eq!(load_illumination_mode(1), Some(MaterialIllumination::ColorAmbientOn));
    assert_eq!(load_illumination_mode(2), Some(MaterialIllumination::Highlight));
    assert_eq!(load_illumination_mode(3), Some(MaterialIllumination::ReflectionRayTrace));
    assert_eq!(load_illumination_mode(4), Some(MaterialIllumination::TransparencyGlassRayTrace));
    assert_eq!(load_illumination_mode(5), Some(MaterialIllumination::ReflectionFresnelRayTrace));
    assert_eq!(
        load_illumination_mode(6),
        Some(MaterialIllumination::TransparencyRefractionRayTrace),
    );
    assert_eq!(load_illumination_mode(7), Some(MaterialIllumination::TransparencyFresnelRayTrace));
    assert_eq!(load_illumination_mode(8), Some(MaterialIllumination::Reflection));
    assert_eq!(load_illumination_mode(9), Some(MaterialIllumination::TransparencyGlass));
    assert_eq!(load_illumination_mode(10), Some(MaterialIllumination::CastShadows));
    assert_eq!(load_illumination_mode(11), None);
    assert_eq!(load_illumination_mode(99), None);
}

#[test]
fn default_material_is_all_zero() {
    let m = Material::default();
    assert_eq!(m.specular_exponent, b"0".to_vec());
    assert_eq!(m.ambient_color.x, b"0".to_vec());
    assert_eq!(m.optical_density, b"0".to_vec());
    assert_eq!(m.opacity, b"0".to_vec());
    assert!(!m.opacity_complemented);
    assert_eq!(m.illumination_mode, None);
    assert_eq!(m.bump_map_file, b"".to_vec());
    assert_eq!(m.diffuse_texture_file, b"".to_vec());
}

#[test]
fn material_blocks_fill_their_fields() {
    let lines = vec![
        b"Ns 32.0".to_vec(),
        b"Ka 0.1 0.2 0.3".to_vec(),
        b"Kd 1 0 0".to_vec(),
        b"Ks 0.5 0.5 0.5".to_vec(),
        b"Ke 0 0 0".to_vec(),
        b"Ni 1.45".to_vec(),
        b"d 0.9".to_vec(),
        b"illum 2".to_vec(),
        b"map_Bump normal.png".to_vec(),
        b"map_Kd diffuse.png".to_vec(),
    ];
    let m = load_material(&lines).ok().unwrap();
    assert_eq!(m.specular_exponent, b"32.0".to_vec());
    assert_eq!(m.ambient_color.y, b"0.2".to_vec());
    assert_eq!(m.diffuse_color.x, b"1".to_vec());
    assert_eq!(m.specular_color.z, b"0.5".to_vec());
    assert_eq!(m.emissive_color.x, b"0".to_vec());
    assert_eq!(m.optical_density, b"1.45".to_vec());
    assert_eq!(m.opacity, b"0.9".to_vec());
    assert!(!m.opacity_complemented);
    assert_eq!(m.illumination_mode, Some(MaterialIllumination::Highlight));
    assert_eq!(m.bump_map_file, b"normal.png".to_vec());
    assert_eq!(m.diffuse_texture_file, b"diffuse.png".to_vec());
}

#[test]
fn opacity_takes_the_last_directive() {
    let lines = vec![b"Tr 0.3".to_vec(), b"d 0.5".to_vec()];
    let m = load_material(&lines).ok().unwrap();
    assert_eq!(m.opacity, b"0.5".to_vec());
    assert!(!m.opacity_complemented);
    let lines2 = vec![b"d 0.5".to_vec(), b"Tr 0.3".to_vec()];
    let m2 = load_material(&lines2).ok().unwrap();
    assert_eq!(m2.opacity, b"0.3".to_vec());
    assert!(m2.opacity_complemented);
}

#[test]
fn material_blocks_reject_bad_values() {
    assert_eq!(load_material(&vec![b"Kd 1 0".to_vec()]).err(), Some(()));
    assert_eq!(load_material(&vec![b"Ns".to_vec()]).err(), Some(()));
    assert_eq!(load_material(&vec![b"Ns x".to_vec()]).err(), Some(()));
    assert_eq!(load_material(&vec![b"illum x".to_vec()]).err(), Some(()));
    assert_eq!(load_material(&vec![b"map_Kd".to_vec()]).err(), Some(()));
    // an unrecognized directive is ignored
    assert!(load_material(&vec![b"sharpness 60".to_vec()]).is_ok());
    // a mode number out of range names no mode and is no error
    let m = load_material(&vec![b"illum 42".to_vec()]).ok().unwrap();
    assert_eq!(m.illumination_mode, None);
}

#[test]
fn libraries_register_names_in_order() {
    let mut names: Vec<Vec<u8>> = Vec::new();
    let mut materials: Vec<Material> = Vec::new();
    let r = load_mtl(b"# comment\nnewmtl red\nKd 1 0 0\nnewmtl blue\nKd 0 0 1\n", &mut names, &mut materials);
    assert!(r.is_ok());
    assert_eq!(names.len(), 2);
    assert_eq!(names[0], b"red".to_vec());
    assert_eq!(names[1], b"blue".to_vec());
    assert_eq!(materials.len(), 2);
    assert_eq!(materials[1].diffuse_color.z, b"1".to_vec());
}

#[test]
fn lines_before_the_first_material_are_ignored() {
    let mut names: Vec<Vec<u8>> = Vec::new();
    let mut materials: Vec<Material> = Vec::new();
    let r = load_mtl(b"Kd 1 0 0\nnewmtl red\nKd 0 1 0", &mut names, &mut materials);
    assert!(r.is_ok());
    assert_eq!(materials.len(), 1);
    assert_eq!(materials[0].diffuse_color.y, b"1".to_vec());
    // a library with no material-opening directive registers nothing
    let mut n2: Vec<Vec<u8>> = Vec::new();
    let mut m2: Vec<Material> = Vec::new();
    assert!(load_mtl(b"Kd 1 0 0", &mut n2, &mut m2).is_ok());
    assert_eq!(m2.len(), 0);
}

#[test]
fn library_errors_become_invalid_material_lib() {
    let mut names: Vec<Vec<u8>> = Vec::new();
    let mut materials: Vec<Material> = Vec::new();
    match load_mtl(b"newmtl red\nKd 1 0", &mut names, &mut materials) {
        Ok(()) => panic!("expected an error"),
        Err(e) => assert_eq!(e, ObjLoadError::InvalidMaterialLib),
    }
    let mut n2: Vec<Vec<u8>> = Vec::new();
    let mut m2: Vec<Material> = Vec::new();
    match load_mtl(b"newmtl", &mut n2, &mut m2) {
        Ok(()) => panic!("expected an error"),
        Err(e) => assert_eq!(e, ObjLoadError::InvalidMaterialLib),
    }
}

#[test]
fn a_repeated_material_name_resolves_to_the_later_record() {
    let mtl = b"newmtl red\nKd 1 0 0\nnewmtl red\nKd 0 1 0".to_vec();
    let obj = b"v 0 0 0\nv 1 0 0\nv 1 1 0\nusemtl red\nf 1 2 3";
    let model = parse_model(obj, &vec![mtl]).ok().unwrap();
    assert_eq!(model.materials.len(), 2);
    assert_eq!(model.meshes[0].material, Some(1));
}

#[test]
fn materials_from_several_libraries_accumulate() {
    let mtl1 = b"newmtl red\nKd 1 0 0".to_vec();
    let mtl2 = b"newmtl blue\nKd 0 0 1".to_vec();
    let obj = b"v 0 0 0\nv 1 0 0\nv 1 1 0\nusemtl blue\nf 1 2 3";
    let model = parse_model(obj, &vec![mtl1, mtl2]).ok().unwrap();
    assert_eq!(model.materials.len(), 2);
    assert_eq!(model.meshes[0].material, Some(1));
}
