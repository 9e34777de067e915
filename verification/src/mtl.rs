//! The material library parser: a library file is segmented into
//! blocks, one per material-opening directive, and each block's
//! directives fill one named material record.

use vstd::prelude::*;
use crate::bytes::{clone_tok, spec_lines, spec_split, split_bytes, split_lines, tok_views};
use crate::keywords::{MtlKey, mtl_key, spec_mtl_key};
use crate::model::{
    GMaterial, GNum3, Material, Num3, ObjLoadError, gmaterial_default, lemma_material_views_push,
    material_views, spec_illumination_mode, load_illumination_mode,
};
use crate::bytes::lemma_tok_views_push;
use crate::numbers::{float_token, is_float_token, load_num, spec_load_num};

verus! {

// ---------------------------------------------------------------------
// one directive applied to a material record
// ---------------------------------------------------------------------

/// Three color components read from the tokens after the key; further
/// tokens are ignored.
pub open spec fn spec_color3(ts: Seq<Seq<u8>>) -> Option<GNum3> {
    if ts.len() >= 4 && is_float_token(ts[1]) && is_float_token(ts[2]) && is_float_token(ts[3]) {
        Some(GNum3 { x: ts[1], y: ts[2], z: ts[3] })
    } else {
        None
    }
}

/// One line's tokens applied to a material record. An unrecognized key
/// changes nothing; a recognized key with a missing or malformed value
/// is an error.
pub open spec fn mtl_directive(m: GMaterial, ts: Seq<Seq<u8>>) -> Result<GMaterial, ()> {
    match spec_mtl_key(ts[0]) {
        MtlKey::SpecularExponent => {
            if ts.len() >= 2 && is_float_token(ts[1]) {
                Ok(GMaterial { specular_exponent: ts[1], ..m })
            } else {
                Err(())
            }
        },
        MtlKey::AmbientColor => match spec_color3(ts) {
            Option::Some(c) => Ok(GMaterial { ambient_color: c, ..m }),
            Option::None => Err(()),
        },
        MtlKey::DiffuseColor => match spec_color3(ts) {
            Option::Some(c) => Ok(GMaterial { diffuse_color: c, ..m }),
            Option::None => Err(()),
        },
        MtlKey::SpecularColor => match spec_color3(ts) {
            Option::Some(c) => Ok(GMaterial { specular_color: c, ..m }),
            Option::None => Err(()),
        },
        MtlKey::EmissiveColor => match spec_color3(ts) {
            Option::Some(c) => Ok(GMaterial { emissive_color: c, ..m }),
            Option::None => Err(()),
        },
        MtlKey::OpticalDensity => {
            if ts.len() >= 2 && is_float_token(ts[1]) {
                Ok(GMaterial { optical_density: ts[1], ..m })
            } else {
                Err(())
            }
        },
        MtlKey::Opacity => {
            if ts.len() >= 2 && is_float_token(ts[1]) {
                Ok(GMaterial { opacity: ts[1], opacity_complemented: false, ..m })
            } else {
                Err(())
            }
        },
        MtlKey::Transmission => {
            if ts.len() >= 2 && is_float_token(ts[1]) {
                Ok(GMaterial { opacity: ts[1], opacity_complemented: true, ..m })
            } else {
                Err(())
            }
        },
        MtlKey::Illumination => {
            if ts.len() >= 2 {
                match spec_load_num(Some(ts[1])) {
                    Ok(v) => Ok(GMaterial { illumination_mode: spec_illumination_mode(v), ..m }),
                    Err(()) => Err(()),
                }
            } else {
                Err(())
            }
        },
        MtlKey::BumpMap => {
            if ts.len() >= 2 {
                Ok(GMaterial { bump_map_file: ts[1], ..m })
            } else {
                Err(())
            }
        },
        MtlKey::DiffuseMap => {
            if ts.len() >= 2 {
                Ok(GMaterial { diffuse_texture_file: ts[1], ..m })
            } else {
                Err(())
            }
        },
        MtlKey::NewMaterial => Ok(m),
        MtlKey::Other => Ok(m),
    }
}

/// Applies one line's tokens to the record under construction.
fn apply_mtl_directive(cur: &mut Material, tokens: &Vec<Vec<u8>>) -> (r: Result<(), ()>)
    requires
        tokens@.len() >= 1,
    ensures
        match r {
            Ok(()) => mtl_directive(old(cur)@, tok_views(tokens@)) == Ok::<GMaterial, ()>(final(cur)@),
            Err(()) => mtl_directive(old(cur)@, tok_views(tokens@)) == Err::<GMaterial, ()>(())
                && final(cur)@ == old(cur)@,
        },
{
    let ghost ts = tok_views(tokens@);
    proof {
        assert(ts[0] == tokens@[0]@);
    }
    let key = mtl_key(&tokens[0]);
    match key {
        MtlKey::SpecularExponent => {
            if tokens.len() >= 2 {
                proof {
                    assert(ts[1] == tokens@[1]@);
                }
                if float_token(&tokens[1]) {
                    cur.specular_exponent = clone_tok(&tokens[1]);
                    return Ok(());
                }
            }
            Err(())
        },
        MtlKey::AmbientColor => {
            match load_color3(tokens) {
                Option::Some(c) => {
                    cur.ambient_color = c;
                    Ok(())
                },
                Option::None => Err(()),
            }
        },
        MtlKey::DiffuseColor => {
            match load_color3(tokens) {
                Option::Some(c) => {
                    cur.diffuse_color = c;
                    Ok(())
                },
                Option::None => Err(()),
            }
        },
        MtlKey::SpecularColor => {
            match load_color3(tokens) {
                Option::Some(c) => {
                    cur.specular_color = c;
                    Ok(())
                },
                Option::None => Err(()),
            }
        },
        MtlKey::EmissiveColor => {
            match load_color3(tokens) {
                Option::Some(c) => {
                    cur.emissive_color = c;
                    Ok(())
                },
                Option::None => Err(()),
            }
        },
        MtlKey::OpticalDensity => {
            if tokens.len() >= 2 {
                proof {
                    assert(ts[1] == tokens@[1]@);
                }
                if float_token(&tokens[1]) {
                    cur.optical_density = clone_tok(&tokens[1]);
                    return Ok(());
                }
            }
            Err(())
        },
        MtlKey::Opacity => {
            if tokens.len() >= 2 {
                proof {
                    assert(ts[1] == tokens@[1]@);
                }
                if float_token(&tokens[1]) {
                    cur.opacity = clone_tok(&tokens[1]);
                    cur.opacity_complemented = false;
                    return Ok(());
                }
            }
            Err(())
        },
        MtlKey::Transmission => {
            if tokens.len() >= 2 {
                proof {
                    assert(ts[1] == tokens@[1]@);
                }
                if float_token(&tokens[1]) {
                    cur.opacity = clone_tok(&tokens[1]);
                    cur.opacity_complemented = true;
                    return Ok(());
                }
            }
            Err(())
        },
        MtlKey::Illumination => {
            if tokens.len() >= 2 {
                proof {
                    assert(ts[1] == tokens@[1]@);
                }
                match load_num(Some(&tokens[1])) {
                    Ok(v) => {
                        cur.illumination_mode = load_illumination_mode(v);
                        return Ok(());
                    },
                    Err(()) => {
                        return Err(());
                    },
                }
            }
            Err(())
        },
        MtlKey::BumpMap => {
            if tokens.len() >= 2 {
                proof {
                    assert(ts[1] == tokens@[1]@);
                }
                cur.bump_map_file = clone_tok(&tokens[1]);
                return Ok(());
            }
            Err(())
        },
        MtlKey::DiffuseMap => {
            if tokens.len() >= 2 {
                proof {
                    assert(ts[1] == tokens@[1]@);
                }
                cur.diffuse_texture_file = clone_tok(&tokens[1]);
                return Ok(());
            }
            Err(())
        },
        MtlKey::NewMaterial => Ok(()),
        MtlKey::Other => Ok(()),
    }
}

/// Reads three color components from the tokens after the key.
fn load_color3(tokens: &Vec<Vec<u8>>) -> (r: Option<Num3>)
    ensures
        match r {
            Option::Some(c) => spec_color3(tok_views(tokens@)) == Some(c@),
            Option::None => spec_color3(tok_views(tokens@)) is None,
        },
{
    let ghost ts = tok_views(tokens@);
    if tokens.len() < 4 {
        return None;
    }
    proof {
        assert(ts[1] == tokens@[1]@);
        assert(ts[2] == tokens@[2]@);
        assert(ts[3] == tokens@[3]@);
    }
    if float_token(&tokens[1]) && float_token(&tokens[2]) && float_token(&tokens[3]) {
        Some(Num3 { x: clone_tok(&tokens[1]), y: clone_tok(&tokens[2]), z: clone_tok(&tokens[3]) })
    } else {
        None
    }
}

// ---------------------------------------------------------------------
// one material block
// ---------------------------------------------------------------------

/// One block's lines folded onto a record, starting from the default.
pub open spec fn spec_load_material(lines: Seq<Seq<u8>>, m: GMaterial) -> Result<GMaterial, ()>
    decreases lines.len(),
{
    if lines.len() == 0 {
        Ok(m)
    } else {
        match spec_load_material(lines.drop_last(), m) {
            Ok(m1) => mtl_directive(m1, spec_split(lines.last(), 32)),
            Err(()) => Err(()),
        }
    }
}

/// Parses one material block's lines into a record; directives the
/// block does not recognize are ignored.
pub fn load_material(raw_material: &[Vec<u8>]) -> (r: Result<Material, ()>)
    ensures
        match r {
            Ok(m) => spec_load_material(tok_views(raw_material@), gmaterial_default()) == Ok::<GMaterial, ()>(m@),
            Err(()) => spec_load_material(tok_views(raw_material@), gmaterial_default())
                == Err::<GMaterial, ()>(()),
        },
{
    let ghost gls = tok_views(raw_material@);
    let mut cur = Material::default();
    let n: usize = raw_material.len();
    let mut i: usize = 0;
    proof {
        assert(gls.take(0) =~= Seq::<Seq<u8>>::empty());
    }
    while i < n
        invariant
            0 <= i <= n,
            n == raw_material@.len(),
            gls == tok_views(raw_material@),
            spec_load_material(gls.take(i as int), gmaterial_default()) == Ok::<GMaterial, ()>(cur@),
        decreases n - i,
    {
        proof {
            assert(gls.take(i as int + 1).drop_last() =~= gls.take(i as int));
            assert(gls.take(i as int + 1).last() == gls[i as int]);
            assert(gls[i as int] == raw_material@[i as int]@);
        }
        let tokens = split_bytes(raw_material[i].as_slice(), 32);
        proof {
            assert(tok_views(tokens@) == spec_split(gls[i as int], 32));
            assert(tok_views(tokens@).len() == tokens@.len());
        }
        match apply_mtl_directive(&mut cur, &tokens) {
            Ok(()) => {},
            Err(()) => {
                proof {
                    assert(spec_load_material(gls.take(i as int + 1), gmaterial_default())
                        is Err);
                    lemma_load_material_err(gls, gmaterial_default(), i as int + 1);
                }
                return Err(());
            },
        }
        i += 1;
    }
    proof {
        assert(gls.take(n as int) =~= gls);
    }
    Ok(cur)
}

/// A failing directive fails the whole block.
proof fn lemma_load_material_err(lines: Seq<Seq<u8>>, m: GMaterial, i: int)
    requires
        0 <= i <= lines.len(),
        spec_load_material(lines.take(i), m) is Err,
    ensures
        spec_load_material(lines, m) is Err,
    decreases lines.len() - i,
{
    if i == lines.len() {
        assert(lines.take(i) =~= lines);
    } else {
        assert(lines.take(i + 1).drop_last() =~= lines.take(i));
        lemma_load_material_err(lines, m, i + 1);
    }
}

// ---------------------------------------------------------------------
// a whole library file
// ---------------------------------------------------------------------

/// The state of a walk over a library's lines: the materials registered
/// so far, their names in registration order, and the block under
/// construction, when one is open.
pub ghost struct MtlState {
    pub names: Seq<Seq<u8>>,
    pub mats: Seq<GMaterial>,
    pub cur: Option<(Seq<u8>, GMaterial)>,
}

/// Registers the open block, if any.
pub open spec fn mtl_close(st: MtlState) -> MtlState {
    match st.cur {
        Option::Some(nm) => MtlState {
            names: st.names.push(nm.0),
            mats: st.mats.push(nm.1),
            cur: None,
        },
        Option::None => st,
    }
}

/// One library line applied to the walk's state. A material-opening
/// directive must name its material and registers the block before it;
/// any other line is applied to the open block, and ignored while none
/// is open.
pub open spec fn mtl_step(st: MtlState, l: Seq<u8>) -> Result<MtlState, ObjLoadError> {
    let ts = spec_split(l, 32);
    if spec_mtl_key(ts[0]) == MtlKey::NewMaterial {
        if ts.len() < 2 {
            Err(ObjLoadError::InvalidMaterialLib)
        } else {
            let st1 = mtl_close(st);
            Ok(MtlState { names: st1.names, mats: st1.mats, cur: Some((ts[1], gmaterial_default())) })
        }
    } else {
        match st.cur {
            Option::None => Ok(st),
            Option::Some(nm) => match mtl_directive(nm.1, ts) {
                Ok(m2) => Ok(MtlState { names: st.names, mats: st.mats, cur: Some((nm.0, m2)) }),
                Err(()) => Err(ObjLoadError::InvalidMaterialLib),
            },
        }
    }
}

/// A library's lines folded over the walk's state.
pub open spec fn mtl_fold(lines: Seq<Seq<u8>>, st: MtlState) -> Result<MtlState, ObjLoadError>
    decreases lines.len(),
{
    if lines.len() == 0 {
        Ok(st)
    } else {
        match mtl_fold(lines.drop_last(), st) {
            Ok(st1) => mtl_step(st1, lines.last()),
            Err(e) => Err(e),
        }
    }
}

/// A failing line fails the whole fold.
pub proof fn lemma_mtl_fold_err(lines: Seq<Seq<u8>>, st: MtlState, i: int)
    requires
        0 <= i <= lines.len(),
        mtl_fold(lines.take(i), st) is Err,
    ensures
        mtl_fold(lines, st) == mtl_fold(lines.take(i), st),
    decreases lines.len() - i,
{
    if i == lines.len() {
        assert(lines.take(i) =~= lines);
    } else {
        assert(lines.take(i + 1).drop_last() =~= lines.take(i));
        lemma_mtl_fold_err(lines, st, i + 1);
    }
}

/// One library file parsed: the materials and names it appends to those
/// already registered. Lines before the first material-opening
/// directive are outside every block and are ignored.
pub open spec fn spec_parse_mtl(b: Seq<u8>, names0: Seq<Seq<u8>>, mats0: Seq<GMaterial>) -> Result<
    (Seq<Seq<u8>>, Seq<GMaterial>),
    ObjLoadError,
> {
    match mtl_fold(spec_lines(b), MtlState { names: names0, mats: mats0, cur: None }) {
        Ok(st) => {
            let c = mtl_close(st);
            Ok((c.names, c.mats))
        },
        Err(e) => Err(e),
    }
}

/// A list of library files parsed in order into one registry.
pub open spec fn spec_mtl_libs(mtls: Seq<Seq<u8>>) -> Result<
    (Seq<Seq<u8>>, Seq<GMaterial>),
    ObjLoadError,
>
    decreases mtls.len(),
{
    if mtls.len() == 0 {
        Ok((seq![], seq![]))
    } else {
        match spec_mtl_libs(mtls.drop_last()) {
            Ok(r) => spec_parse_mtl(mtls.last(), r.0, r.1),
            Err(e) => Err(e),
        }
    }
}

/// Parses one material library file, appending its records and their
/// names to the registry.
pub fn load_mtl(raw_mtl: &[u8], names: &mut Vec<Vec<u8>>, materials: &mut Vec<Material>) -> (r:
    Result<(), ObjLoadError>)
    ensures
        match r {
            Ok(()) => spec_parse_mtl(
                raw_mtl@,
                tok_views(old(names)@),
                material_views(old(materials)@),
            ) == Ok::<(Seq<Seq<u8>>, Seq<GMaterial>), ObjLoadError>((tok_views(final(names)@), material_views(final(materials)@))),
            Err(e) => spec_parse_mtl(
                raw_mtl@,
                tok_views(old(names)@),
                material_views(old(materials)@),
            ) == Err::<(Seq<Seq<u8>>, Seq<GMaterial>), ObjLoadError>(e),
        },
{
    let ghost st0 = MtlState {
        names: tok_views(names@),
        mats: material_views(materials@),
        cur: None,
    };
    let lines = split_lines(raw_mtl);
    let ghost gls = spec_lines(raw_mtl@);
    let mut cur_name: Option<Vec<u8>> = None;
    let mut cur: Material = Material::default();
    let n: usize = lines.len();
    let mut i: usize = 0;
    proof {
        assert(gls.take(0) =~= Seq::<Seq<u8>>::empty());
    }
    while i < n
        invariant
            0 <= i <= n,
            n == lines@.len(),
            gls == tok_views(lines@),
            gls == spec_lines(raw_mtl@),
            st0 == (MtlState {
                names: tok_views(old(names)@),
                mats: material_views(old(materials)@),
                cur: None,
            }),
            mtl_fold(gls.take(i as int), st0) == Ok::<MtlState, ObjLoadError>(MtlState {
                names: tok_views(names@),
                mats: material_views(materials@),
                cur: match cur_name {
                    Option::Some(nm) => Some((nm@, cur@)),
                    Option::None => None,
                },
            }),
        decreases n - i,
    {
        proof {
            assert(gls.take(i as int + 1).drop_last() =~= gls.take(i as int));
            assert(gls.take(i as int + 1).last() == gls[i as int]);
            assert(gls[i as int] == lines@[i as int]@);
        }
        let tokens = split_bytes(lines[i].as_slice(), 32);
        let ghost ts = spec_split(gls[i as int], 32);
        proof {
            assert(tok_views(tokens@) == ts);
            assert(tok_views(tokens@).len() == tokens@.len());
            assert(ts[0] == tokens@[0]@);
        }
        let key = mtl_key(&tokens[0]);
        if key == MtlKey::NewMaterial {
            if tokens.len() < 2 {
                proof {
                    lemma_mtl_fold_err(gls, st0, i as int + 1);
                }
                return Err(ObjLoadError::InvalidMaterialLib);
            }
            proof {
                assert(ts[1] == tokens@[1]@);
            }
            let prev_name = cur_name;
            let prev_mat = cur;
            cur_name = Some(clone_tok(&tokens[1]));
            cur = Material::default();
            match prev_name {
                Option::Some(nm) => {
                    let ghost names0 = names@;
                    let ghost mats0 = materials@;
                    names.push(nm);
                    materials.push(prev_mat);
                    proof {
                        lemma_tok_views_push(names0, nm);
                        lemma_material_views_push(mats0, prev_mat);
                    }
                },
                Option::None => {},
            }
        } else {
            proof {
                assert(spec_mtl_key(ts[0]) != MtlKey::NewMaterial);
            }
            if cur_name.is_some() {
                match apply_mtl_directive(&mut cur, &tokens) {
                    Ok(()) => {},
                    Err(()) => {
                        proof {
                            lemma_mtl_fold_err(gls, st0, i as int + 1);
                        }
                        return Err(ObjLoadError::InvalidMaterialLib);
                    },
                }
            }
        }
        i += 1;
    }
    proof {
        assert(gls.take(n as int) =~= gls);
    }
    match cur_name {
        Option::Some(nm) => {
            let ghost names0 = names@;
            let ghost mats0 = materials@;
            names.push(nm);
            materials.push(cur);
            proof {
                lemma_tok_views_push(names0, nm);
                lemma_material_views_push(mats0, cur);
            }
        },
        Option::None => {},
    }
    Ok(())
}


/// A failing library fails the whole list.
pub proof fn lemma_mtl_libs_err(mtls: Seq<Seq<u8>>, i: int)
    requires
        0 <= i <= mtls.len(),
        spec_mtl_libs(mtls.take(i)) is Err,
    ensures
        spec_mtl_libs(mtls) == spec_mtl_libs(mtls.take(i)),
    decreases mtls.len() - i,
{
    if i == mtls.len() {
        assert(mtls.take(i) =~= mtls);
    } else {
        assert(mtls.take(i + 1).drop_last() =~= mtls.take(i));
        lemma_mtl_libs_err(mtls, i + 1);
    }
}

} // verus!

