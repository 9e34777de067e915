//! The model assembler: the geometry lines are walked once, the
//! attribute pools growing across the whole text while each
//! object/group segment accumulates its own faces and material
//! selection; at each boundary, and at end of input, the open segment
//! is exported as a mesh.
//!
//! Material libraries are registered before the walk, so every
//! selection resolves against the full registry.

use vstd::prelude::*;
use crate::bytes::{
    clone_tok, spec_lines, spec_split, split_bytes, split_lines, tok_eq, tok_views,
};
use crate::export::{export_mesh, spec_export};
use crate::face::{load_face, spec_load_face};
use crate::keywords::{GeoKey, geo_key, spec_geo_key};
use crate::model::{
    Face, GMaterial, GMesh, GModel, GNum2, GNum3, Material, Mesh, Model, Num2, Num3, ObjLoadError,
    lemma_mesh_views_push, lemma_num2_views_push, lemma_num3_views_push, material_views,
    mesh_views, num2_views, num3_views,
};
use crate::mtl::{lemma_mtl_libs_err, load_mtl, spec_mtl_libs};
use crate::numbers::{float_token, is_float_token};

verus! {

/// The state of a walk over the geometry lines: the three global
/// attribute pools, the open segment's faces and material selection,
/// and the meshes exported so far.
pub ghost struct GState {
    pub positions: Seq<GNum3>,
    pub texture_coords: Seq<GNum2>,
    pub normals: Seq<GNum3>,
    pub faces: Seq<Face>,
    pub current_material: Seq<u8>,
    pub meshes: Seq<GMesh>,
}

/// A state from its six parts.
pub open spec fn gstate_of(
    positions: Seq<GNum3>,
    texture_coords: Seq<GNum2>,
    normals: Seq<GNum3>,
    faces: Seq<Face>,
    current_material: Seq<u8>,
    meshes: Seq<GMesh>,
) -> GState {
    GState { positions, texture_coords, normals, faces, current_material, meshes }
}

/// The state a walk starts from: everything empty.
pub open spec fn gstate_init() -> GState {
    gstate_of(seq![], seq![], seq![], seq![], seq![], seq![])
}

/// The registry index of the material of the given name; of two
/// materials registered under one name, the later one wins.
pub open spec fn lookup_name(names: Seq<Seq<u8>>, n: Seq<u8>) -> Option<usize>
    decreases names.len(),
{
    if names.len() == 0 {
        None
    } else if names.last() == n {
        Some((names.len() - 1) as usize)
    } else {
        lookup_name(names.drop_last(), n)
    }
}

/// Closes a segment: a non-empty face list is exported as one mesh
/// bound to the material the segment last selected, an empty one
/// exports nothing. The face list and the selection reset either way;
/// pools and finished meshes carry over.
pub open spec fn close_segment(st: GState, names: Seq<Seq<u8>>) -> Result<GState, ObjLoadError> {
    if st.faces.len() == 0 {
        Ok(
            gstate_of(
                st.positions,
                st.texture_coords,
                st.normals,
                seq![],
                seq![],
                st.meshes,
            ),
        )
    } else {
        match spec_export(
            st.faces,
            st.positions,
            st.texture_coords,
            st.normals,
            lookup_name(names, st.current_material),
        ) {
            Option::Some(m) => Ok(
                gstate_of(
                    st.positions,
                    st.texture_coords,
                    st.normals,
                    seq![],
                    seq![],
                    st.meshes.push(m),
                ),
            ),
            Option::None => Err(ObjLoadError::InvalidFaceValue),
        }
    }
}

/// Exactly three numbers after the key.
pub open spec fn spec_float3(ts: Seq<Seq<u8>>) -> Option<GNum3> {
    if ts.len() == 4 && is_float_token(ts[1]) && is_float_token(ts[2]) && is_float_token(ts[3]) {
        Some(GNum3 { x: ts[1], y: ts[2], z: ts[3] })
    } else {
        None
    }
}

/// At least two numbers after the key; further tokens are ignored.
pub open spec fn spec_float2(ts: Seq<Seq<u8>>) -> Option<GNum2> {
    if ts.len() >= 3 && is_float_token(ts[1]) && is_float_token(ts[2]) {
        Some(GNum2 { u: ts[1], v: ts[2] })
    } else {
        None
    }
}

/// One geometry line applied to the walk's state.
pub open spec fn geo_step(st: GState, l: Seq<u8>, names: Seq<Seq<u8>>) -> Result<
    GState,
    ObjLoadError,
> {
    let ts = spec_split(l, 32);
    match spec_geo_key(ts[0]) {
        GeoKey::Boundary => close_segment(st, names),
        GeoKey::Position => match spec_float3(ts) {
            Option::Some(p) => Ok(
                gstate_of(
                    st.positions.push(p),
                    st.texture_coords,
                    st.normals,
                    st.faces,
                    st.current_material,
                    st.meshes,
                ),
            ),
            Option::None => Err(ObjLoadError::InvalidPositionValue),
        },
        GeoKey::TexCoord => match spec_float2(ts) {
            Option::Some(p) => Ok(
                gstate_of(
                    st.positions,
                    st.texture_coords.push(p),
                    st.normals,
                    st.faces,
                    st.current_material,
                    st.meshes,
                ),
            ),
            Option::None => Err(ObjLoadError::InvalidTextureCoordValue),
        },
        GeoKey::Normal => match spec_float3(ts) {
            Option::Some(p) => Ok(
                gstate_of(
                    st.positions,
                    st.texture_coords,
                    st.normals.push(p),
                    st.faces,
                    st.current_material,
                    st.meshes,
                ),
            ),
            Option::None => Err(ObjLoadError::InvalidNormalValue),
        },
        GeoKey::FaceDef => match spec_load_face(ts.skip(1)) {
            Ok(f) => Ok(
                gstate_of(
                    st.positions,
                    st.texture_coords,
                    st.normals,
                    st.faces.push(f),
                    st.current_material,
                    st.meshes,
                ),
            ),
            Err(e) => Err(e),
        },
        GeoKey::UseMaterial => {
            if ts.len() >= 2 {
                Ok(
                    gstate_of(
                        st.positions,
                        st.texture_coords,
                        st.normals,
                        st.faces,
                        ts[1],
                        st.meshes,
                    ),
                )
            } else {
                Err(ObjLoadError::InvalidMaterialName)
            }
        },
        GeoKey::MaterialLib => Ok(st),
        GeoKey::Other => Ok(st),
    }
}

/// The geometry lines folded over the walk's state.
pub open spec fn geo_fold(lines: Seq<Seq<u8>>, names: Seq<Seq<u8>>) -> Result<
    GState,
    ObjLoadError,
>
    decreases lines.len(),
{
    if lines.len() == 0 {
        Ok(gstate_init())
    } else {
        match geo_fold(lines.drop_last(), names) {
            Ok(st) => geo_step(st, lines.last(), names),
            Err(e) => Err(e),
        }
    }
}

/// A failing line fails the whole fold.
pub proof fn lemma_geo_fold_err(lines: Seq<Seq<u8>>, names: Seq<Seq<u8>>, i: int)
    requires
        0 <= i <= lines.len(),
        geo_fold(lines.take(i), names) is Err,
    ensures
        geo_fold(lines, names) == geo_fold(lines.take(i), names),
    decreases lines.len() - i,
{
    if i == lines.len() {
        assert(lines.take(i) =~= lines);
    } else {
        assert(lines.take(i + 1).drop_last() =~= lines.take(i));
        lemma_geo_fold_err(lines, names, i + 1);
    }
}

/// The whole parse: the libraries' materials are registered first, the
/// geometry is walked segment by segment, and the open segment closes
/// at end of input. The model holds the meshes in segment order and the
/// materials in registration order.
pub open spec fn spec_parse_model(obj: Seq<u8>, mtls: Seq<Seq<u8>>) -> Result<
    GModel,
    ObjLoadError,
> {
    match spec_mtl_libs(mtls) {
        Ok(r) => match geo_fold(spec_lines(obj), r.0) {
            Ok(st) => match close_segment(st, r.0) {
                Ok(st2) => Ok(GModel { meshes: st2.meshes, materials: r.1 }),
                Err(e) => Err(e),
            },
            Err(e) => Err(e),
        },
        Err(e) => Err(e),
    }
}

/// Finds the registry index of a material name; of equal names the
/// last registered wins.
pub fn lookup_material(names: &Vec<Vec<u8>>, n: &Vec<u8>) -> (r: Option<usize>)
    ensures
        r == lookup_name(tok_views(names@), n@),
{
    let ghost gn = tok_views(names@);
    let mut i: usize = names.len();
    proof {
        assert(gn.take(names@.len() as int) =~= gn);
    }
    while i > 0
        invariant
            0 <= i <= names@.len(),
            gn == tok_views(names@),
            lookup_name(gn, n@) == lookup_name(gn.take(i as int), n@),
        decreases i,
    {
        i = i - 1;
        proof {
            assert(gn.take(i as int + 1).last() == gn[i as int]);
            assert(gn.take(i as int + 1).drop_last() =~= gn.take(i as int));
            assert(gn[i as int] == names@[i as int]@);
        }
        if tok_eq(&names[i], n) {
            return Some(i);
        }
    }
    proof {
        assert(gn.take(0) =~= Seq::<Seq<u8>>::empty());
    }
    None
}

/// Closes the open segment held in the loader's locals.
fn close_segment_exec(
    positions: &Vec<Num3>,
    texture_coords: &Vec<Num2>,
    normals: &Vec<Num3>,
    faces: &mut Vec<Face>,
    current_material: &mut Vec<u8>,
    meshes: &mut Vec<Mesh>,
    names: &Vec<Vec<u8>>,
) -> (r: Result<(), ObjLoadError>)
    ensures
        ({
            let st0 = gstate_of(
                num3_views(positions@),
                num2_views(texture_coords@),
                num3_views(normals@),
                old(faces)@,
                old(current_material)@,
                mesh_views(old(meshes)@),
            );
            match r {
                Ok(()) => close_segment(st0, tok_views(names@)) == Ok::<GState, ObjLoadError>(
                    gstate_of(
                        num3_views(positions@),
                        num2_views(texture_coords@),
                        num3_views(normals@),
                        final(faces)@,
                        final(current_material)@,
                        mesh_views(final(meshes)@),
                    ),
                ),
                Err(e) => close_segment(st0, tok_views(names@)) == Err::<GState, ObjLoadError>(e),
            }
        }),
{
    if faces.len() == 0 {
        *current_material = Vec::new();
        proof {
            assert(faces@ =~= Seq::<Face>::empty());
            assert(current_material@ =~= Seq::<u8>::empty());
        }
        Ok(())
    } else {
        let mat = lookup_material(names, current_material);
        match export_mesh(faces, positions, texture_coords, normals, mat) {
            Ok(m) => {
                let ghost meshes0 = meshes@;
                meshes.push(m);
                *faces = Vec::new();
                *current_material = Vec::new();
                proof {
                    lemma_mesh_views_push(meshes0, m);
                    assert(faces@ =~= Seq::<Face>::empty());
                    assert(current_material@ =~= Seq::<u8>::empty());
                }
                Ok(())
            },
            Err(e) => Err(e),
        }
    }
}

/// Parses a geometry text against the given material library texts and
/// assembles the model.
pub fn parse_model(obj: &[u8], mtls: &Vec<Vec<u8>>) -> (r: Result<Model, ObjLoadError>)
    ensures
        match r {
            Ok(m) => spec_parse_model(obj@, tok_views(mtls@)) == Ok::<GModel, ObjLoadError>(m@),
            Err(e) => spec_parse_model(obj@, tok_views(mtls@)) == Err::<GModel, ObjLoadError>(e),
        },
{
    let ghost gmtls = tok_views(mtls@);
    // the material libraries first: a selection resolves against the
    // full registry
    let mut names: Vec<Vec<u8>> = Vec::new();
    let mut materials: Vec<Material> = Vec::new();
    let nm: usize = mtls.len();
    let mut mi: usize = 0;
    proof {
        assert(gmtls.take(0) =~= Seq::<Seq<u8>>::empty());
        assert(tok_views(names@) =~= Seq::<Seq<u8>>::empty());
        assert(material_views(materials@) =~= Seq::<GMaterial>::empty());
    }
    while mi < nm
        invariant
            0 <= mi <= nm,
            nm == mtls@.len(),
            gmtls == tok_views(mtls@),
            spec_mtl_libs(gmtls.take(mi as int)) == Ok::<
                (Seq<Seq<u8>>, Seq<GMaterial>),
                ObjLoadError,
            >((tok_views(names@), material_views(materials@))),
        decreases nm - mi,
    {
        proof {
            assert(gmtls.take(mi as int + 1).drop_last() =~= gmtls.take(mi as int));
            assert(gmtls.take(mi as int + 1).last() == gmtls[mi as int]);
            assert(gmtls[mi as int] == mtls@[mi as int]@);
        }
        match load_mtl(mtls[mi].as_slice(), &mut names, &mut materials) {
            Ok(()) => {},
            Err(e) => {
                proof {
                    lemma_mtl_libs_err(gmtls, mi as int + 1);
                }
                return Err(e);
            },
        }
        mi += 1;
    }
    proof {
        assert(gmtls.take(nm as int) =~= gmtls);
    }
    let ghost gnames = tok_views(names@);
    let ghost gmats = material_views(materials@);
    // the geometry walk
    let lines = split_lines(obj);
    let ghost gls = spec_lines(obj@);
    let mut positions: Vec<Num3> = Vec::new();
    let mut texture_coords: Vec<Num2> = Vec::new();
    let mut normals: Vec<Num3> = Vec::new();
    let mut faces: Vec<Face> = Vec::new();
    let mut current_material: Vec<u8> = Vec::new();
    let mut meshes: Vec<Mesh> = Vec::new();
    let n: usize = lines.len();
    let mut i: usize = 0;
    proof {
        assert(gls.take(0) =~= Seq::<Seq<u8>>::empty());
        assert(num3_views(positions@) =~= Seq::<GNum3>::empty());
        assert(num2_views(texture_coords@) =~= Seq::<GNum2>::empty());
        assert(num3_views(normals@) =~= Seq::<GNum3>::empty());
        assert(mesh_views(meshes@) =~= Seq::<GMesh>::empty());
        assert(faces@ =~= Seq::<Face>::empty());
        assert(current_material@ =~= Seq::<u8>::empty());
    }
    while i < n
        invariant
            0 <= i <= n,
            n == lines@.len(),
            gls == tok_views(lines@),
            gls == spec_lines(obj@),
            gmtls == tok_views(mtls@),
            gnames == tok_views(names@),
            gmats == material_views(materials@),
            spec_mtl_libs(gmtls) == Ok::<(Seq<Seq<u8>>, Seq<GMaterial>), ObjLoadError>(
                (gnames, gmats),
            ),
            geo_fold(gls.take(i as int), gnames) == Ok::<GState, ObjLoadError>(
                gstate_of(
                    num3_views(positions@),
                    num2_views(texture_coords@),
                    num3_views(normals@),
                    faces@,
                    current_material@,
                    mesh_views(meshes@),
                ),
            ),
        decreases n - i,
    {
        proof {
            assert(gls.take(i as int + 1).drop_last() =~= gls.take(i as int));
            assert(gls.take(i as int + 1).last() == gls[i as int]);
            assert(gls[i as int] == lines@[i as int]@);
        }
        let ghost st_pre = gstate_of(
            num3_views(positions@),
            num2_views(texture_coords@),
            num3_views(normals@),
            faces@,
            current_material@,
            mesh_views(meshes@),
        );
        let tokens = split_bytes(lines[i].as_slice(), 32);
        let ghost ts = spec_split(gls[i as int], 32);
        proof {
            assert(tok_views(tokens@) == ts);
            assert(tok_views(tokens@).len() == tokens@.len());
            assert(ts[0] == tokens@[0]@);
        }
        let key = geo_key(&tokens[0]);
        match key {
            GeoKey::Boundary => {
                match close_segment_exec(
                    &positions,
                    &texture_coords,
                    &normals,
                    &mut faces,
                    &mut current_material,
                    &mut meshes,
                    &names,
                ) {
                    Ok(()) => {},
                    Err(e) => {
                        proof {
                            lemma_geo_fold_err(gls, gnames, i as int + 1);
                        }
                        return Err(e);
                    },
                }
            },
            GeoKey::Position => {
                if tokens.len() != 4 {
                    proof {
                        lemma_geo_fold_err(gls, gnames, i as int + 1);
                    }
                    return Err(ObjLoadError::InvalidPositionValue);
                }
                proof {
                    assert(ts[1] == tokens@[1]@);
                    assert(ts[2] == tokens@[2]@);
                    assert(ts[3] == tokens@[3]@);
                }
                let ok1 = float_token(&tokens[1]);
                let ok2 = float_token(&tokens[2]);
                let ok3 = float_token(&tokens[3]);
                if !(ok1 && ok2 && ok3) {
                    proof {
                        lemma_geo_fold_err(gls, gnames, i as int + 1);
                    }
                    return Err(ObjLoadError::InvalidPositionValue);
                }
                let ghost p0 = positions@;
                let v = Num3 {
                    x: clone_tok(&tokens[1]),
                    y: clone_tok(&tokens[2]),
                    z: clone_tok(&tokens[3]),
                };
                proof {
                    assert(spec_float3(ts) == Some(v@));
                }
                positions.push(v);
                proof {
                    lemma_num3_views_push(p0, v);
                }
            },
            GeoKey::TexCoord => {
                if tokens.len() < 3 {
                    proof {
                        lemma_geo_fold_err(gls, gnames, i as int + 1);
                    }
                    return Err(ObjLoadError::InvalidTextureCoordValue);
                }
                proof {
                    assert(ts[1] == tokens@[1]@);
                    assert(ts[2] == tokens@[2]@);
                }
                let ok1 = float_token(&tokens[1]);
                let ok2 = float_token(&tokens[2]);
                if !(ok1 && ok2) {
                    proof {
                        lemma_geo_fold_err(gls, gnames, i as int + 1);
                    }
                    return Err(ObjLoadError::InvalidTextureCoordValue);
                }
                let ghost t0 = texture_coords@;
                let v = Num2 { u: clone_tok(&tokens[1]), v: clone_tok(&tokens[2]) };
                proof {
                    assert(spec_float2(ts) == Some(v@));
                }
                texture_coords.push(v);
                proof {
                    lemma_num2_views_push(t0, v);
                }
            },
            GeoKey::Normal => {
                if tokens.len() != 4 {
                    proof {
                        lemma_geo_fold_err(gls, gnames, i as int + 1);
                    }
                    return Err(ObjLoadError::InvalidNormalValue);
                }
                proof {
                    assert(ts[1] == tokens@[1]@);
                    assert(ts[2] == tokens@[2]@);
                    assert(ts[3] == tokens@[3]@);
                }
                let ok1 = float_token(&tokens[1]);
                let ok2 = float_token(&tokens[2]);
                let ok3 = float_token(&tokens[3]);
                if !(ok1 && ok2 && ok3) {
                    proof {
                        lemma_geo_fold_err(gls, gnames, i as int + 1);
                    }
                    return Err(ObjLoadError::InvalidNormalValue);
                }
                let ghost n0 = normals@;
                let v = Num3 {
                    x: clone_tok(&tokens[1]),
                    y: clone_tok(&tokens[2]),
                    z: clone_tok(&tokens[3]),
                };
                proof {
                    assert(spec_float3(ts) == Some(v@));
                }
                normals.push(v);
                proof {
                    lemma_num3_views_push(n0, v);
                }
            },
            GeoKey::FaceDef => {
                let sl = tokens.as_slice();
                let corners = &sl[1..sl.len()];
                proof {
                    assert(tok_views(corners@) =~= ts.skip(1));
                }
                match load_face(corners) {
                    Ok(f) => {
                        let ghost f0 = faces@;
                        faces.push(f);
                        proof {
                            assert(faces@ =~= f0.push(f));
                        }
                    },
                    Err(e) => {
                        proof {
                            lemma_geo_fold_err(gls, gnames, i as int + 1);
                        }
                        return Err(e);
                    },
                }
            },
            GeoKey::UseMaterial => {
                if tokens.len() < 2 {
                    proof {
                        lemma_geo_fold_err(gls, gnames, i as int + 1);
                    }
                    return Err(ObjLoadError::InvalidMaterialName);
                }
                proof {
                    assert(ts[1] == tokens@[1]@);
                }
                current_material = clone_tok(&tokens[1]);
            },
            GeoKey::MaterialLib => {},
            GeoKey::Other => {},
        }
        proof {
            assert(geo_fold(gls.take(i as int + 1), gnames) == Ok::<GState, ObjLoadError>(
                gstate_of(
                    num3_views(positions@),
                    num2_views(texture_coords@),
                    num3_views(normals@),
                    faces@,
                    current_material@,
                    mesh_views(meshes@),
                ),
            ));
        }
        i += 1;
    }
    proof {
        assert(gls.take(n as int) =~= gls);
    }
    // close the final segment
    match close_segment_exec(
        &positions,
        &texture_coords,
        &normals,
        &mut faces,
        &mut current_material,
        &mut meshes,
        &names,
    ) {
        Ok(()) => {},
        Err(e) => {
            return Err(e);
        },
    }
    let model = Model { meshes, materials };
    proof {
        assert(spec_parse_model(obj@, gmtls) == Ok::<GModel, ObjLoadError>(model@));
    }
    Ok(model)
}

// ---------------------------------------------------------------------
// library references
// ---------------------------------------------------------------------

/// One line's contribution to the list of referenced library paths.
pub open spec fn mtllib_step(ps: Seq<Seq<u8>>, l: Seq<u8>) -> Result<Seq<Seq<u8>>, ObjLoadError> {
    let ts = spec_split(l, 32);
    if spec_geo_key(ts[0]) == GeoKey::MaterialLib {
        if ts.len() >= 2 {
            Ok(ps.push(ts[1]))
        } else {
            Err(ObjLoadError::InvalidMaterialLib)
        }
    } else {
        Ok(ps)
    }
}

pub open spec fn mtllib_fold(lines: Seq<Seq<u8>>) -> Result<Seq<Seq<u8>>, ObjLoadError>
    decreases lines.len(),
{
    if lines.len() == 0 {
        Ok(seq![])
    } else {
        match mtllib_fold(lines.drop_last()) {
            Ok(ps) => mtllib_step(ps, lines.last()),
            Err(e) => Err(e),
        }
    }
}

/// The material library paths a geometry text references, in order; a
/// reference without a path is an error.
pub open spec fn spec_mtllib_paths(obj: Seq<u8>) -> Result<Seq<Seq<u8>>, ObjLoadError> {
    mtllib_fold(spec_lines(obj))
}

proof fn lemma_mtllib_fold_err(lines: Seq<Seq<u8>>, i: int)
    requires
        0 <= i <= lines.len(),
        mtllib_fold(lines.take(i)) is Err,
    ensures
        mtllib_fold(lines) == mtllib_fold(lines.take(i)),
    decreases lines.len() - i,
{
    if i == lines.len() {
        assert(lines.take(i) =~= lines);
    } else {
        assert(lines.take(i + 1).drop_last() =~= lines.take(i));
        lemma_mtllib_fold_err(lines, i + 1);
    }
}

/// Scans a geometry text for the material library paths it references.
/// A caller loads each referenced file and hands the texts to
/// `parse_model`.
pub fn mtllib_paths(obj: &[u8]) -> (r: Result<Vec<Vec<u8>>, ObjLoadError>)
    ensures
        match r {
            Ok(ps) => spec_mtllib_paths(obj@) == Ok::<Seq<Seq<u8>>, ObjLoadError>(tok_views(ps@)),
            Err(e) => spec_mtllib_paths(obj@) == Err::<Seq<Seq<u8>>, ObjLoadError>(e),
        },
{
    let lines = split_lines(obj);
    let ghost gls = spec_lines(obj@);
    let mut out: Vec<Vec<u8>> = Vec::new();
    let n: usize = lines.len();
    let mut i: usize = 0;
    proof {
        assert(gls.take(0) =~= Seq::<Seq<u8>>::empty());
        assert(tok_views(out@) =~= Seq::<Seq<u8>>::empty());
    }
    while i < n
        invariant
            0 <= i <= n,
            n == lines@.len(),
            gls == tok_views(lines@),
            gls == spec_lines(obj@),
            mtllib_fold(gls.take(i as int)) == Ok::<Seq<Seq<u8>>, ObjLoadError>(tok_views(out@)),
        decreases n - i,
    {
        proof {
            assert(gls.take(i as int + 1).drop_last() =~= gls.take(i as int));
            assert(gls.take(i as int + 1).last() == gls[i as int]);
            assert(gls[i as int] == lines@[i as int]@);
        }
        let tokens = split_bytes(lines[i].as_slice(), 32);
        let ghost ts = spec_split(gls[i as int], 32);
        proof {
            assert(tok_views(tokens@) == ts);
            assert(tok_views(tokens@).len() == tokens@.len());
            assert(ts[0] == tokens@[0]@);
        }
        let key = geo_key(&tokens[0]);
        if key == GeoKey::MaterialLib {
            if tokens.len() < 2 {
                proof {
                    lemma_mtllib_fold_err(gls, i as int + 1);
                }
                return Err(ObjLoadError::InvalidMaterialLib);
            }
            proof {
                assert(ts[1] == tokens@[1]@);
            }
            let ghost out0 = out@;
            let p = clone_tok(&tokens[1]);
            let ghost pv = p@;
            out.push(p);
            proof {
                assert(tok_views(out@) =~= tok_views(out0).push(pv));
            }
        }
        i += 1;
    }
    proof {
        assert(gls.take(n as int) =~= gls);
    }
    Ok(out)
}

} // verus!
