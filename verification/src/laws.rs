//! The laws of the exporter and the assembler, each proved once for all
//! inputs: vertex deduplication, the fixed quad split, index validity,
//! the discarding of point and line faces, and the independence of
//! segments' dedup scopes.

use vstd::prelude::*;
use crate::bytes::spec_split;
use crate::export::{
    corners_of, face_corners, firsts, lemma_firsts_contains, lemma_firsts_no_dup,
    lemma_idx_of_props, spec_export, spec_materialize,
};
use crate::keywords::{GeoKey, spec_geo_key};
use crate::model::{Face, GMesh, GModel, GNum2, GNum3, VertexIndices};
use crate::obj::{GState, close_segment, geo_fold, lookup_name, spec_parse_model};

verus! {

/// Dedup law: an exported mesh holds exactly one vertex for each
/// distinct vertex key its corner stream references — referencing a key
/// again never adds a vertex.
pub proof fn lemma_dedup_vertex_count(
    faces: Seq<Face>,
    pos: Seq<GNum3>,
    tex: Seq<GNum2>,
    nrm: Seq<GNum3>,
    material: Option<usize>,
    m: GMesh,
)
    requires
        spec_export(faces, pos, tex, nrm, material) == Some(m),
    ensures
        m.vertices.len() == corners_of(faces).to_set().len(),
{
    let cs = corners_of(faces);
    let ks = firsts(cs);
    lemma_firsts_no_dup(cs);
    ks.unique_seq_to_set();
    assert forall|k: VertexIndices| #[trigger]
        ks.to_set().contains(k) <==> cs.to_set().contains(k) by {
        lemma_firsts_contains(cs, k);
    }
    assert(ks.to_set() =~= cs.to_set());
}

/// Quad triangulation law: a quad face with corners (a, b, c, d)
/// contributes exactly the two triangles (a, b, c) and (a, c, d), in
/// that order.
pub proof fn lemma_quad_triangulation(
    a: VertexIndices,
    b: VertexIndices,
    c: VertexIndices,
    d: VertexIndices,
)
    ensures
        face_corners(Face::Quad(a, b, c, d)) == seq![a, b, c] + seq![a, c, d],
{
    assert(face_corners(Face::Quad(a, b, c, d)) =~= seq![a, b, c] + seq![a, c, d]);
}

/// Index validity law: every index of an exported mesh is strictly
/// below that mesh's vertex count.
pub proof fn lemma_index_validity(
    faces: Seq<Face>,
    pos: Seq<GNum3>,
    tex: Seq<GNum2>,
    nrm: Seq<GNum3>,
    material: Option<usize>,
    m: GMesh,
)
    requires
        spec_export(faces, pos, tex, nrm, material) == Some(m),
    ensures
        forall|i: int|
            0 <= i < m.indices.len() ==> (#[trigger] m.indices[i]) < m.vertices.len(),
{
    let cs = corners_of(faces);
    let ks = firsts(cs);
    assert forall|i: int|
        0 <= i < m.indices.len() implies (#[trigger] m.indices[i]) < m.vertices.len() by {
        assert(cs.contains(cs[i]));
        lemma_firsts_contains(cs, cs[i]);
        lemma_idx_of_props(ks, cs[i]);
    }
}

/// Whether every index of a mesh is below its vertex count.
pub open spec fn mesh_indices_valid(m: GMesh) -> bool {
    forall|i: int| 0 <= i < m.indices.len() ==> (#[trigger] m.indices[i]) < m.vertices.len()
}

/// Whether every mesh of a list has only valid indices.
pub open spec fn meshes_indices_valid(ms: Seq<GMesh>) -> bool {
    forall|j: int| 0 <= j < ms.len() ==> mesh_indices_valid(#[trigger] ms[j])
}

/// Closing a segment only adds meshes with valid indices.
proof fn lemma_close_segment_valid(st: GState, names: Seq<Seq<u8>>)
    requires
        meshes_indices_valid(st.meshes),
        close_segment(st, names) is Ok,
    ensures
        meshes_indices_valid(close_segment(st, names).unwrap().meshes),
{
    if st.faces.len() == 0 {
    } else {
        let e = spec_export(
            st.faces,
            st.positions,
            st.texture_coords,
            st.normals,
            lookup_name(names, st.current_material),
        );
        let m = e.unwrap();
        lemma_index_validity(
            st.faces,
            st.positions,
            st.texture_coords,
            st.normals,
            lookup_name(names, st.current_material),
            m,
        );
        let ms = st.meshes.push(m);
        assert forall|j: int| 0 <= j < ms.len() implies mesh_indices_valid(#[trigger] ms[j]) by {
            if j < st.meshes.len() {
                assert(ms[j] == st.meshes[j]);
            } else {
                assert(ms[j] == m);
            }
        }
    }
}

/// Every mesh a geometry walk has exported has only valid indices.
proof fn lemma_geo_fold_valid(lines: Seq<Seq<u8>>, names: Seq<Seq<u8>>)
    ensures
        geo_fold(lines, names) matches Ok(st) ==> meshes_indices_valid(st.meshes),
    decreases lines.len(),
{
    if lines.len() == 0 {
    } else {
        lemma_geo_fold_valid(lines.drop_last(), names);
        match geo_fold(lines.drop_last(), names) {
            Ok(st) => {
                match geo_fold(lines, names) {
                    Ok(st2) => {
                        let ts = spec_split(lines.last(), 32);
                        if spec_geo_key(ts[0]) == GeoKey::Boundary {
                            lemma_close_segment_valid(st, names);
                        } else {
                            assert(st2.meshes == st.meshes);
                        }
                    },
                    Err(_) => {},
                }
            },
            Err(_) => {},
        }
    }
}

/// Index validity law over a whole parse: every mesh of a parsed model
/// has every index strictly below its own vertex count.
pub proof fn lemma_model_index_validity(obj: Seq<u8>, mtls: Seq<Seq<u8>>, gm: GModel)
    requires
        spec_parse_model(obj, mtls) == Ok::<GModel, crate::model::ObjLoadError>(gm),
    ensures
        meshes_indices_valid(gm.meshes),
{
    let r = crate::mtl::spec_mtl_libs(mtls);
    let names = r.unwrap().0;
    lemma_geo_fold_valid(crate::bytes::spec_lines(obj), names);
    let st = geo_fold(crate::bytes::spec_lines(obj), names).unwrap();
    lemma_close_segment_valid(st, names);
}

/// Point/line discard law: a face with one or two corners contributes
/// nothing to the corner stream, so its segment exports the very same
/// mesh without it.
pub proof fn lemma_point_line_discard(
    faces: Seq<Face>,
    f: Face,
    pos: Seq<GNum3>,
    tex: Seq<GNum2>,
    nrm: Seq<GNum3>,
    material: Option<usize>,
)
    requires
        f is Point || f is Line,
    ensures
        corners_of(faces.push(f)) == corners_of(faces),
        spec_export(faces.push(f), pos, tex, nrm, material) == spec_export(
            faces,
            pos,
            tex,
            nrm,
            material,
        ),
{
    assert(faces.push(f).drop_last() =~= faces);
    assert(faces.push(f).last() == f);
    assert(corners_of(faces.push(f)) =~= corners_of(faces));
    let e1 = spec_export(faces.push(f), pos, tex, nrm, material);
    let e2 = spec_export(faces, pos, tex, nrm, material);
    if e1 is Some || e2 is Some {
        match (e1, e2) {
            (Option::Some(m1), Option::Some(m2)) => {
                assert(m1.vertices =~= m2.vertices);
                assert(m1.indices =~= m2.indices);
                assert(m1 == m2);
            },
            _ => {},
        }
    }
}

/// A key referenced by a segment's corner stream has its materialized
/// vertex among the exported mesh's vertices.
pub proof fn lemma_export_materializes_key(
    faces: Seq<Face>,
    pos: Seq<GNum3>,
    tex: Seq<GNum2>,
    nrm: Seq<GNum3>,
    material: Option<usize>,
    m: GMesh,
    k: VertexIndices,
)
    requires
        spec_export(faces, pos, tex, nrm, material) == Some(m),
        corners_of(faces).contains(k),
    ensures
        m.vertices.contains(spec_materialize(k, pos, tex, nrm)),
{
    let cs = corners_of(faces);
    let ks = firsts(cs);
    lemma_firsts_contains(cs, k);
    lemma_idx_of_props(ks, k);
    let i = crate::export::idx_of(ks, k);
    assert(m.vertices[i] == spec_materialize(k, pos, tex, nrm));
}

/// Segmentation independence law: segments deduplicate alone — a vertex
/// key referenced by the corner streams of two segments is materialized
/// separately into each segment's mesh, and each mesh's vertex count
/// counts only its own segment's distinct keys.
pub proof fn lemma_segmentation_independence(
    faces1: Seq<Face>,
    faces2: Seq<Face>,
    pos: Seq<GNum3>,
    tex: Seq<GNum2>,
    nrm: Seq<GNum3>,
    material1: Option<usize>,
    material2: Option<usize>,
    m1: GMesh,
    m2: GMesh,
    k: VertexIndices,
)
    requires
        spec_export(faces1, pos, tex, nrm, material1) == Some(m1),
        spec_export(faces2, pos, tex, nrm, material2) == Some(m2),
        corners_of(faces1).contains(k),
        corners_of(faces2).contains(k),
    ensures
        m1.vertices.contains(spec_materialize(k, pos, tex, nrm)),
        m2.vertices.contains(spec_materialize(k, pos, tex, nrm)),
        m1.vertices.len() == corners_of(faces1).to_set().len(),
        m2.vertices.len() == corners_of(faces2).to_set().len(),
{
    lemma_export_materializes_key(faces1, pos, tex, nrm, material1, m1, k);
    lemma_export_materializes_key(faces2, pos, tex, nrm, material2, m2, k);
    lemma_dedup_vertex_count(faces1, pos, tex, nrm, material1, m1);
    lemma_dedup_vertex_count(faces2, pos, tex, nrm, material2, m2);
}

} // verus!
