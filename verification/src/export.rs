//! The mesh exporter: the accumulated faces of one segment, together
//! with the current attribute pools, become one indexed mesh.
//!
//! Points and lines contribute nothing; triangles contribute their
//! corners in order; quads are fan-split into two triangles. Corners
//! with the same vertex key share one output vertex, assembled at the
//! key's first occurrence.

use vstd::prelude::*;
use crate::bytes::clone_tok;
use crate::model::{
    Face, GMesh, GModelVertex, GNum2, GNum3, Mesh, ModelVertex, Num2, Num3, ObjLoadError,
    VertexIndices, gnum2_zero, gnum3_zero, num2_views, num2_zero, num3_views, num3_zero,
    vertex_views,
};

verus! {

// ---------------------------------------------------------------------
// the corner stream
// ---------------------------------------------------------------------

/// The corner references one face contributes to the triangle stream: a
/// point or line contributes none, a triangle its corners in order, and
/// a quad with corners (a, b, c, d) the two triangles (a, b, c) and
/// (a, c, d).
pub open spec fn face_corners(f: Face) -> Seq<VertexIndices> {
    match f {
        Face::Point(_) => seq![],
        Face::Line(_, _) => seq![],
        Face::Triangle(a, b, c) => seq![a, b, c],
        Face::Quad(a, b, c, d) => seq![a, b, c, a, c, d],
    }
}

/// The corner stream of a whole face list.
pub open spec fn corners_of(faces: Seq<Face>) -> Seq<VertexIndices>
    decreases faces.len(),
{
    if faces.len() == 0 {
        seq![]
    } else {
        corners_of(faces.drop_last()) + face_corners(faces.last())
    }
}

// ---------------------------------------------------------------------
// first occurrences
// ---------------------------------------------------------------------

/// The distinct keys of `cs`, in first-occurrence order.
pub open spec fn firsts(cs: Seq<VertexIndices>) -> Seq<VertexIndices>
    decreases cs.len(),
{
    if cs.len() == 0 {
        seq![]
    } else {
        let f = firsts(cs.drop_last());
        if f.contains(cs.last()) {
            f
        } else {
            f.push(cs.last())
        }
    }
}

/// The position of the first occurrence of `k` in `f`.
pub open spec fn idx_of(f: Seq<VertexIndices>, k: VertexIndices) -> int
    decreases f.len(),
{
    if f.len() == 0 {
        0
    } else if f[0] == k {
        0
    } else {
        1 + idx_of(f.skip(1), k)
    }
}

/// Where `k` occurs, `idx_of` names its first occurrence.
pub proof fn lemma_idx_of_props(f: Seq<VertexIndices>, k: VertexIndices)
    requires
        f.contains(k),
    ensures
        0 <= idx_of(f, k) < f.len(),
        f[idx_of(f, k)] == k,
        forall|j: int| 0 <= j < idx_of(f, k) ==> f[j] != k,
    decreases f.len(),
{
    if f[0] == k {
    } else {
        let i = choose|i: int| 0 <= i < f.len() && f[i] == k;
        assert(f.skip(1)[i - 1] == f[i]);
        assert(f.skip(1).contains(k));
        lemma_idx_of_props(f.skip(1), k);
        assert forall|j: int| 0 <= j < idx_of(f, k) implies f[j] != k by {
            if j > 0 {
                assert(f.skip(1)[j - 1] == f[j]);
            }
        }
    }
}

/// A first occurrence determines `idx_of`.
pub proof fn lemma_idx_of_first(f: Seq<VertexIndices>, k: VertexIndices, i: int)
    requires
        0 <= i < f.len(),
        f[i] == k,
        forall|j: int| 0 <= j < i ==> f[j] != k,
    ensures
        f.contains(k),
        idx_of(f, k) == i,
    decreases f.len(),
{
    assert(f.contains(k));
    if i == 0 {
    } else {
        assert(f.skip(1)[i - 1] == f[i]);
        assert forall|j: int| 0 <= j < i - 1 implies f.skip(1)[j] != k by {
            assert(f.skip(1)[j] == f[j + 1]);
        }
        lemma_idx_of_first(f.skip(1), k, i - 1);
    }
}

/// Extending a sequence on the right moves no first occurrence.
pub proof fn lemma_idx_of_extend(f: Seq<VertexIndices>, g: Seq<VertexIndices>, k: VertexIndices)
    requires
        f.contains(k),
    ensures
        (f + g).contains(k),
        idx_of(f + g, k) == idx_of(f, k),
    decreases f.len(),
{
    lemma_idx_of_props(f, k);
    let i = idx_of(f, k);
    assert((f + g)[i] == f[i]);
    assert((f + g).contains(k));
    if f[0] == k {
        assert((f + g)[0] == k);
    } else {
        assert((f + g)[0] == f[0]);
        let i0 = choose|i: int| 0 <= i < f.len() && f[i] == k;
        assert(f.skip(1)[i0 - 1] == f[i0]);
        assert(f.skip(1).contains(k));
        lemma_idx_of_extend(f.skip(1), g, k);
        assert((f + g).skip(1) =~= f.skip(1) + g);
    }
}

/// A key pushed onto a sequence free of it first occurs at the end.
pub proof fn lemma_idx_of_push_new(f: Seq<VertexIndices>, k: VertexIndices)
    requires
        !f.contains(k),
    ensures
        f.push(k).contains(k),
        idx_of(f.push(k), k) == f.len(),
    decreases f.len(),
{
    assert(f.push(k)[f.len() as int] == k);
    assert(f.push(k).contains(k));
    if f.len() == 0 {
    } else {
        assert(f[0] != k);
        assert(f.push(k)[0] == f[0]);
        assert(!f.skip(1).contains(k)) by {
            if f.skip(1).contains(k) {
                let j = choose|j: int| 0 <= j < f.skip(1).len() && f.skip(1)[j] == k;
                assert(f[j + 1] == f.skip(1)[j]);
                assert(f.contains(k));
            }
        }
        lemma_idx_of_push_new(f.skip(1), k);
        assert(f.push(k).skip(1) =~= f.skip(1).push(k));
    }
}

/// `firsts` holds exactly the keys of its input.
pub proof fn lemma_firsts_contains(cs: Seq<VertexIndices>, k: VertexIndices)
    ensures
        firsts(cs).contains(k) <==> cs.contains(k),
    decreases cs.len(),
{
    if cs.len() == 0 {
    } else {
        let d = cs.drop_last();
        lemma_firsts_contains(d, k);
        let f = firsts(d);
        if cs.contains(k) {
            let i = choose|i: int| 0 <= i < cs.len() && cs[i] == k;
            if i < cs.len() - 1 {
                assert(d[i] == cs[i]);
                assert(d.contains(k));
                if !f.contains(cs.last()) {
                    lemma_idx_of_props(f, k);
                    assert(f.push(cs.last())[idx_of(f, k)] == k);
                    assert(firsts(cs).contains(k));
                }
            } else {
                if !f.contains(cs.last()) {
                    assert(f.push(cs.last())[f.len() as int] == k);
                }
            }
        }
        if firsts(cs).contains(k) {
            if f.contains(cs.last()) {
                assert(d.contains(k));
                let i = choose|i: int| 0 <= i < d.len() && d[i] == k;
                assert(cs[i] == d[i]);
                assert(cs.contains(k));
            } else {
                let i = choose|i: int| 0 <= i < f.push(cs.last()).len() && f.push(cs.last())[i]
                    == k;
                if i < f.len() {
                    assert(f[i] == k);
                    assert(f.contains(k));
                    let j = choose|j: int| 0 <= j < d.len() && d[j] == k;
                    assert(cs[j] == d[j]);
                    assert(cs.contains(k));
                } else {
                    assert(cs.last() == k);
                    assert(cs[cs.len() - 1] == k);
                    assert(cs.contains(k));
                }
            }
        }
    }
}

/// `firsts` of a prefix is a prefix of `firsts`.
pub proof fn lemma_firsts_take_prefix(cs: Seq<VertexIndices>, i: int)
    requires
        0 <= i <= cs.len(),
    ensures
        firsts(cs.take(i)).len() <= firsts(cs).len(),
        firsts(cs.take(i)) == firsts(cs).take(firsts(cs.take(i)).len() as int),
    decreases cs.len() - i,
{
    if i == cs.len() {
        assert(cs.take(i) =~= cs);
        assert(firsts(cs).take(firsts(cs).len() as int) =~= firsts(cs));
    } else {
        let f = firsts(cs.drop_last());
        assert(cs.take(i) =~= cs.drop_last().take(i));
        lemma_firsts_take_prefix(cs.drop_last(), i);
        let a = firsts(cs.take(i));
        if firsts(cs) == f {
            assert(a == firsts(cs).take(a.len() as int));
        } else {
            assert(firsts(cs) == f.push(cs.last()));
            assert(f =~= firsts(cs).take(f.len() as int));
            assert(f.take(a.len() as int) =~= firsts(cs).take(a.len() as int));
        }
    }
}

/// `firsts` never repeats a key.
pub proof fn lemma_firsts_no_dup(cs: Seq<VertexIndices>)
    ensures
        firsts(cs).no_duplicates(),
    decreases cs.len(),
{
    if cs.len() == 0 {
    } else {
        lemma_firsts_no_dup(cs.drop_last());
        let f = firsts(cs.drop_last());
        let k = cs.last();
        if !f.contains(k) {
            assert forall|i: int, j: int|
                0 <= i < j < f.push(k).len() implies f.push(k)[i] != f.push(k)[j] by {
                if j < f.len() {
                    assert(f.push(k)[i] == f[i] && f.push(k)[j] == f[j]);
                } else {
                    assert(f.push(k)[i] == f[i]);
                    if f[i] == k {
                        assert(f.contains(k));
                    }
                }
            }
        }
    }
}

// ---------------------------------------------------------------------
// materialization and export
// ---------------------------------------------------------------------

/// Whether a key's indices all have pool entries.
pub open spec fn key_valid(k: VertexIndices, np: int, nt: int, nn: int) -> bool {
    &&& k.position < np
    &&& match k.texture_coord {
        Option::Some(t) => t < nt,
        Option::None => true,
    }
    &&& match k.normal {
        Option::Some(m) => m < nn,
        Option::None => true,
    }
}

/// Whether every corner of the stream has pool entries.
pub open spec fn all_valid(cs: Seq<VertexIndices>, np: int, nt: int, nn: int) -> bool {
    forall|i: int| 0 <= i < cs.len() ==> key_valid(#[trigger] cs[i], np, nt, nn)
}

/// The vertex a key assembles: copies of the referenced pool entries,
/// with zero tokens where a texture coordinate or normal is absent.
pub open spec fn spec_materialize(
    k: VertexIndices,
    pos: Seq<GNum3>,
    tex: Seq<GNum2>,
    nrm: Seq<GNum3>,
) -> GModelVertex {
    GModelVertex {
        position: pos[k.position as int],
        texture_coords: match k.texture_coord {
            Option::Some(t) => tex[t as int],
            Option::None => gnum2_zero(),
        },
        normal: match k.normal {
            Option::Some(m) => nrm[m as int],
            Option::None => gnum3_zero(),
        },
    }
}

/// The mesh one segment's faces export against the given pools: the
/// vertices are the distinct referenced keys in first-occurrence order,
/// each corner's index points at its key's vertex, and the resolved
/// material index is attached. A corner without a pool entry, or more
/// distinct keys than a 32-bit index can name, is an error.
pub open spec fn spec_export(
    faces: Seq<Face>,
    pos: Seq<GNum3>,
    tex: Seq<GNum2>,
    nrm: Seq<GNum3>,
    material: Option<usize>,
) -> Option<GMesh> {
    let cs = corners_of(faces);
    let ks = firsts(cs);
    if all_valid(cs, pos.len() as int, tex.len() as int, nrm.len() as int) && ks.len()
        <= u32::MAX + 1 {
        Some(
            GMesh {
                name: seq![],
                vertices: ks.map_values(|k: VertexIndices| spec_materialize(k, pos, tex, nrm)),
                indices: Seq::new(cs.len(), |i: int| idx_of(ks, cs[i]) as u32),
                material: material,
            },
        )
    } else {
        None
    }
}

/// Whether two keys are equal.
pub fn key_eq(a: &VertexIndices, b: &VertexIndices) -> (r: bool)
    ensures
        r == (*a == *b),
{
    let pe = a.position == b.position;
    let te = match (a.texture_coord, b.texture_coord) {
        (Option::None, Option::None) => true,
        (Option::Some(x), Option::Some(y)) => x == y,
        _ => false,
    };
    let ne = match (a.normal, b.normal) {
        (Option::None, Option::None) => true,
        (Option::Some(x), Option::Some(y)) => x == y,
        _ => false,
    };
    pe && te && ne
}

/// The first occurrence of `k` among `keys`, if any.
fn find_key(keys: &Vec<VertexIndices>, k: &VertexIndices) -> (r: Option<usize>)
    ensures
        match r {
            Option::Some(j) => keys@.contains(*k) && j == idx_of(keys@, *k),
            Option::None => !keys@.contains(*k),
        },
{
    let n: usize = keys.len();
    let mut i: usize = 0;
    while i < n
        invariant
            0 <= i <= n,
            n == keys@.len(),
            forall|j: int| 0 <= j < i ==> keys@[j] != *k,
        decreases n - i,
    {
        if key_eq(&keys[i], k) {
            proof {
                lemma_idx_of_first(keys@, *k, i as int);
            }
            return Some(i);
        }
        i += 1;
    }
    proof {
        if keys@.contains(*k) {
            let j = choose|j: int| 0 <= j < keys@.len() && keys@[j] == *k;
            assert(keys@[j] != *k);
        }
    }
    None
}

/// A copy of a coordinate triple.
fn clone_num3(p: &Num3) -> (r: Num3)
    ensures
        r@ == p@,
{
    Num3 { x: clone_tok(&p.x), y: clone_tok(&p.y), z: clone_tok(&p.z) }
}

/// A copy of a coordinate pair.
fn clone_num2(p: &Num2) -> (r: Num2)
    ensures
        r@ == p@,
{
    Num2 { u: clone_tok(&p.u), v: clone_tok(&p.v) }
}

/// Assembles the vertex a key references.
fn materialize_vertex(
    k: &VertexIndices,
    positions: &Vec<Num3>,
    texture_coords: &Vec<Num2>,
    normals: &Vec<Num3>,
) -> (v: ModelVertex)
    requires
        key_valid(
            *k,
            positions@.len() as int,
            texture_coords@.len() as int,
            normals@.len() as int,
        ),
    ensures
        v@ == spec_materialize(
            *k,
            num3_views(positions@),
            num2_views(texture_coords@),
            num3_views(normals@),
        ),
{
    proof {
        assert(num3_views(positions@)[k.position as int] == positions@[k.position as int]@);
    }
    let p = clone_num3(&positions[k.position]);
    let t = match k.texture_coord {
        Option::Some(ti) => {
            proof {
                assert(num2_views(texture_coords@)[ti as int] == texture_coords@[ti as int]@);
            }
            clone_num2(&texture_coords[ti])
        },
        Option::None => num2_zero(),
    };
    let m = match k.normal {
        Option::Some(ni) => {
            proof {
                assert(num3_views(normals@)[ni as int] == normals@[ni as int]@);
            }
            clone_num3(&normals[ni])
        },
        Option::None => num3_zero(),
    };
    ModelVertex::new(p, t, m)
}

/// The corner stream of a face list.
pub fn collect_corners(faces: &Vec<Face>) -> (cs: Vec<VertexIndices>)
    ensures
        cs@ == corners_of(faces@),
{
    let n: usize = faces.len();
    let mut cs: Vec<VertexIndices> = Vec::new();
    let mut fi: usize = 0;
    proof {
        assert(faces@.take(0) =~= Seq::<Face>::empty());
        assert(cs@ =~= corners_of(faces@.take(0)));
    }
    while fi < n
        invariant
            0 <= fi <= n,
            n == faces@.len(),
            cs@ == corners_of(faces@.take(fi as int)),
        decreases n - fi,
    {
        let ghost pre = cs@;
        let f = faces[fi];
        match f {
            Face::Point(_) => {},
            Face::Line(_, _) => {},
            Face::Triangle(a, b, c) => {
                cs.push(a);
                cs.push(b);
                cs.push(c);
            },
            Face::Quad(a, b, c, d) => {
                cs.push(a);
                cs.push(b);
                cs.push(c);
                cs.push(a);
                cs.push(c);
                cs.push(d);
            },
        }
        proof {
            assert(faces@.take(fi as int + 1).drop_last() =~= faces@.take(fi as int));
            assert(faces@.take(fi as int + 1).last() == faces@[fi as int]);
            assert(cs@ =~= pre + face_corners(faces@[fi as int]));
        }
        fi += 1;
    }
    proof {
        assert(faces@.take(n as int) =~= faces@);
    }
    cs
}

/// Exports one segment's faces as a mesh against the given pools, with
/// the given resolved material index.
pub fn export_mesh(
    faces: &Vec<Face>,
    positions: &Vec<Num3>,
    texture_coords: &Vec<Num2>,
    normals: &Vec<Num3>,
    material: Option<usize>,
) -> (r: Result<Mesh, ObjLoadError>)
    ensures
        ({
            let sp = spec_export(
                faces@,
                num3_views(positions@),
                num2_views(texture_coords@),
                num3_views(normals@),
                material,
            );
            match r {
                Ok(m) => sp == Some(m@),
                Err(e) => sp is None && e == ObjLoadError::InvalidFaceValue,
            }
        }),
{
    let ghost gpos = num3_views(positions@);
    let ghost gtex = num2_views(texture_coords@);
    let ghost gnrm = num3_views(normals@);
    let ghost np = gpos.len() as int;
    let ghost nt = gtex.len() as int;
    let ghost nn = gnrm.len() as int;
    let cs = collect_corners(faces);
    let ghost gcs = corners_of(faces@);
    let n: usize = cs.len();
    let mut keys: Vec<VertexIndices> = Vec::new();
    let mut verts: Vec<ModelVertex> = Vec::new();
    let mut inds: Vec<u32> = Vec::new();
    let mut i: usize = 0;
    proof {
        assert(gcs.take(0) =~= Seq::<VertexIndices>::empty());
        assert(keys@ =~= firsts(gcs.take(0)));
    }
    while i < n
        invariant
            0 <= i <= n,
            n == gcs.len(),
            cs@ == gcs,
            gcs == corners_of(faces@),
            gpos == num3_views(positions@),
            gtex == num2_views(texture_coords@),
            gnrm == num3_views(normals@),
            np == gpos.len() as int,
            nt == gtex.len() as int,
            nn == gnrm.len() as int,
            keys@ == firsts(gcs.take(i as int)),
            keys@.len() <= u32::MAX + 1,
            all_valid(gcs.take(i as int), np, nt, nn),
            verts@.len() == keys@.len(),
            forall|y: int|
                0 <= y < keys@.len() ==> vertex_views(verts@)[y] == spec_materialize(
                    #[trigger] keys@[y],
                    gpos,
                    gtex,
                    gnrm,
                ),
            inds@.len() == i,
            forall|j: int|
                0 <= j < i ==> keys@.contains(#[trigger] gcs[j]) && inds@[j] == idx_of(
                    keys@,
                    gcs[j],
                ) as u32,
        decreases n - i,
    {
        let k = cs[i];
        proof {
            assert(gcs.take(i as int + 1).drop_last() =~= gcs.take(i as int));
            assert(gcs.take(i as int + 1).last() == gcs[i as int]);
        }
        match find_key(&keys, &k) {
            Option::Some(j) => {
                proof {
                    lemma_idx_of_props(keys@, k);
                    assert(firsts(gcs.take(i as int + 1)) =~= keys@) by {
                        assert(firsts(gcs.take(i as int)).contains(gcs[i as int]));
                    }
                    assert(key_valid(gcs[i as int], np, nt, nn)) by {
                        let w = idx_of(keys@, k);
                        assert(keys@[w] == k);
                        lemma_firsts_contains(gcs.take(i as int), k);
                        let x = choose|x: int|
                            0 <= x < gcs.take(i as int).len() && gcs.take(i as int)[x] == k;
                        assert(gcs.take(i as int)[x] == gcs[x]);
                        assert(key_valid(gcs[x], np, nt, nn));
                    }
                    assert(all_valid(gcs.take(i as int + 1), np, nt, nn)) by {
                        assert forall|y: int|
                            0 <= y < i + 1 implies key_valid(
                            #[trigger] gcs.take(i as int + 1)[y],
                            np,
                            nt,
                            nn,
                        ) by {
                            assert(gcs.take(i as int + 1)[y] == gcs[y]);
                            if y < i {
                                assert(gcs.take(i as int)[y] == gcs[y]);
                            }
                        }
                    }
                }
                inds.push(j as u32);
                i += 1;
            },
            Option::None => {
                // the key is new: its pools must hold the referenced entries
                let mut ok = k.position < positions.len();
                match k.texture_coord {
                    Option::Some(t) => {
                        if t >= texture_coords.len() {
                            ok = false;
                        }
                    },
                    Option::None => {},
                }
                match k.normal {
                    Option::Some(m) => {
                        if m >= normals.len() {
                            ok = false;
                        }
                    },
                    Option::None => {},
                }
                if !ok {
                    proof {
                        assert(!key_valid(gcs[i as int], np, nt, nn));
                        assert(!all_valid(gcs, np, nt, nn));
                    }
                    return Err(ObjLoadError::InvalidFaceValue);
                }
                if keys.len() > u32::MAX as usize {
                    proof {
                        assert(firsts(gcs.take(i as int + 1)) =~= keys@.push(gcs[i as int]));
                        lemma_firsts_take_prefix(gcs, i as int + 1);
                        assert(firsts(gcs).len() > u32::MAX + 1);
                    }
                    return Err(ObjLoadError::InvalidFaceValue);
                }
                let v = materialize_vertex(&k, positions, texture_coords, normals);
                let j: usize = keys.len();
                let ghost keys0 = keys@;
                inds.push(j as u32);
                verts.push(v);
                keys.push(k);
                proof {
                    assert(firsts(gcs.take(i as int + 1)) =~= keys@);
                    lemma_idx_of_push_new(keys0, k);
                    assert forall|y: int|
                        0 <= y < keys@.len() implies vertex_views(verts@)[y] == spec_materialize(
                        #[trigger] keys@[y],
                        gpos,
                        gtex,
                        gnrm,
                    ) by {
                        if y < keys0.len() {
                            assert(keys@[y] == keys0[y]);
                            assert(vertex_views(verts@)[y] == verts@[y]@);
                        } else {
                            assert(keys@[y] == k);
                            assert(vertex_views(verts@)[y] == v@);
                        }
                    }
                    assert forall|y: int|
                        0 <= y < i + 1 implies keys@.contains(#[trigger] gcs[y]) && inds@[y]
                        == idx_of(keys@, gcs[y]) as u32 by {
                        if y < i {
                            assert(keys0.contains(gcs[y]));
                            lemma_idx_of_extend(keys0, seq![k], gcs[y]);
                            assert(keys0 + seq![k] =~= keys@);
                        } else {
                            assert(keys@[keys0.len() as int] == k);
                        }
                    }
                    assert(all_valid(gcs.take(i as int + 1), np, nt, nn)) by {
                        assert forall|y: int|
                            0 <= y < i + 1 implies key_valid(
                            #[trigger] gcs.take(i as int + 1)[y],
                            np,
                            nt,
                            nn,
                        ) by {
                            assert(gcs.take(i as int + 1)[y] == gcs[y]);
                            if y < i {
                                assert(gcs.take(i as int)[y] == gcs[y]);
                            } else {
                                assert(key_valid(gcs[i as int], np, nt, nn));
                            }
                        }
                    }
                }
                i += 1;
            },
        }
    }
    proof {
        assert(gcs.take(n as int) =~= gcs);
    }
    let mesh = Mesh { name: Vec::new(), vertices: verts, indices: inds, material };
    proof {
        let sp = spec_export(faces@, gpos, gtex, gnrm, material);
        let ks = firsts(gcs);
        assert(mesh@.name =~= Seq::<u8>::empty());
        assert(mesh@.indices =~= Seq::new(gcs.len(), |j: int| idx_of(ks, gcs[j]) as u32));
        assert(mesh@.vertices =~= ks.map_values(
            |k: VertexIndices| spec_materialize(k, gpos, gtex, gnrm),
        ));
        assert(sp == Some(mesh@));
    }
    Ok(mesh)
}

} // verus!
