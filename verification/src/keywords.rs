//! The directive keywords of the geometry and material languages, and
//! the classification of a line's leading token.

use vstd::prelude::*;
use crate::bytes::tok_eq;

verus! {

// ---------------------------------------------------------------------
// keywords, as byte sequences
// ---------------------------------------------------------------------

/// "v"
pub open spec fn kw_v() -> Seq<u8> {
    seq![118u8]
}

/// "vt"
pub open spec fn kw_vt() -> Seq<u8> {
    seq![118u8, 116]
}

/// "vn"
pub open spec fn kw_vn() -> Seq<u8> {
    seq![118u8, 110]
}

/// "f"
pub open spec fn kw_f() -> Seq<u8> {
    seq![102u8]
}

/// "o"
pub open spec fn kw_o() -> Seq<u8> {
    seq![111u8]
}

/// "g"
pub open spec fn kw_g() -> Seq<u8> {
    seq![103u8]
}

/// "usemtl"
pub open spec fn kw_usemtl() -> Seq<u8> {
    seq![117u8, 115, 101, 109, 116, 108]
}

/// "mtllib"
pub open spec fn kw_mtllib() -> Seq<u8> {
    seq![109u8, 116, 108, 108, 105, 98]
}

/// "newmtl"
pub open spec fn kw_newmtl() -> Seq<u8> {
    seq![110u8, 101, 119, 109, 116, 108]
}

/// "Ns"
pub open spec fn kw_ns() -> Seq<u8> {
    seq![78u8, 115]
}

/// "Ka"
pub open spec fn kw_ka() -> Seq<u8> {
    seq![75u8, 97]
}

/// "Kd"
pub open spec fn kw_kd() -> Seq<u8> {
    seq![75u8, 100]
}

/// "Ks"
pub open spec fn kw_ks() -> Seq<u8> {
    seq![75u8, 115]
}

/// "Ke"
pub open spec fn kw_ke() -> Seq<u8> {
    seq![75u8, 101]
}

/// "Ni"
pub open spec fn kw_ni() -> Seq<u8> {
    seq![78u8, 105]
}

/// "d"
pub open spec fn kw_d() -> Seq<u8> {
    seq![100u8]
}

/// "Tr"
pub open spec fn kw_tr() -> Seq<u8> {
    seq![84u8, 114]
}

/// "illum"
pub open spec fn kw_illum() -> Seq<u8> {
    seq![105u8, 108, 108, 117, 109]
}

/// "map_Bump"
pub open spec fn kw_map_bump() -> Seq<u8> {
    seq![109u8, 97, 112, 95, 66, 117, 109, 112]
}

/// "map_Kd"
pub open spec fn kw_map_kd() -> Seq<u8> {
    seq![109u8, 97, 112, 95, 75, 100]
}

// ---------------------------------------------------------------------
// keyword tokens as fresh vectors
// ---------------------------------------------------------------------

fn usemtl_vec() -> (r: Vec<u8>)
    ensures
        r@ == kw_usemtl(),
{
    let mut v: Vec<u8> = Vec::new();
    v.push(117);
    v.push(115);
    v.push(101);
    v.push(109);
    v.push(116);
    v.push(108);
    proof {
        assert(v@ =~= kw_usemtl());
    }
    v
}

fn mtllib_vec() -> (r: Vec<u8>)
    ensures
        r@ == kw_mtllib(),
{
    let mut v: Vec<u8> = Vec::new();
    v.push(109);
    v.push(116);
    v.push(108);
    v.push(108);
    v.push(105);
    v.push(98);
    proof {
        assert(v@ =~= kw_mtllib());
    }
    v
}

fn newmtl_vec() -> (r: Vec<u8>)
    ensures
        r@ == kw_newmtl(),
{
    let mut v: Vec<u8> = Vec::new();
    v.push(110);
    v.push(101);
    v.push(119);
    v.push(109);
    v.push(116);
    v.push(108);
    proof {
        assert(v@ =~= kw_newmtl());
    }
    v
}

fn illum_vec() -> (r: Vec<u8>)
    ensures
        r@ == kw_illum(),
{
    let mut v: Vec<u8> = Vec::new();
    v.push(105);
    v.push(108);
    v.push(108);
    v.push(117);
    v.push(109);
    proof {
        assert(v@ =~= kw_illum());
    }
    v
}

fn map_bump_vec() -> (r: Vec<u8>)
    ensures
        r@ == kw_map_bump(),
{
    let mut v: Vec<u8> = Vec::new();
    v.push(109);
    v.push(97);
    v.push(112);
    v.push(95);
    v.push(66);
    v.push(117);
    v.push(109);
    v.push(112);
    proof {
        assert(v@ =~= kw_map_bump());
    }
    v
}

fn map_kd_vec() -> (r: Vec<u8>)
    ensures
        r@ == kw_map_kd(),
{
    let mut v: Vec<u8> = Vec::new();
    v.push(109);
    v.push(97);
    v.push(112);
    v.push(95);
    v.push(75);
    v.push(100);
    proof {
        assert(v@ =~= kw_map_kd());
    }
    v
}

// ---------------------------------------------------------------------
// classification of a line's leading token
// ---------------------------------------------------------------------

/// What a geometry line's leading token selects.
#[derive(Debug, Clone, Copy, PartialEq, Eq, Structural)]
pub enum GeoKey {
    /// "v": append a position.
    Position,
    /// "vt": append a texture coordinate.
    TexCoord,
    /// "vn": append a normal.
    Normal,
    /// "f": append a face.
    FaceDef,
    /// "o" or "g": close the segment.
    Boundary,
    /// "usemtl": select the segment's material.
    UseMaterial,
    /// "mtllib": reference a material library.
    MaterialLib,
    /// Anything else: ignored.
    Other,
}

pub open spec fn spec_geo_key(t: Seq<u8>) -> GeoKey {
    if t == kw_v() {
        GeoKey::Position
    } else if t == kw_vt() {
        GeoKey::TexCoord
    } else if t == kw_vn() {
        GeoKey::Normal
    } else if t == kw_f() {
        GeoKey::FaceDef
    } else if t == kw_o() || t == kw_g() {
        GeoKey::Boundary
    } else if t == kw_usemtl() {
        GeoKey::UseMaterial
    } else if t == kw_mtllib() {
        GeoKey::MaterialLib
    } else {
        GeoKey::Other
    }
}

/// Classifies a geometry line's leading token.
pub fn geo_key(t: &Vec<u8>) -> (k: GeoKey)
    ensures
        k == spec_geo_key(t@),
{
    let n: usize = t.len();
    if n == 1 {
        let b = t[0];
        if b == 118 {
            proof {
                assert(t@ =~= kw_v());
            }
            GeoKey::Position
        } else if b == 102 {
            proof {
                assert(t@ =~= kw_f());
            }
            GeoKey::FaceDef
        } else if b == 111 {
            proof {
                assert(t@ =~= kw_o());
            }
            GeoKey::Boundary
        } else if b == 103 {
            proof {
                assert(t@ =~= kw_g());
            }
            GeoKey::Boundary
        } else {
            GeoKey::Other
        }
    } else if n == 2 {
        let b0 = t[0];
        let b1 = t[1];
        if b0 == 118 && b1 == 116 {
            proof {
                assert(t@ =~= kw_vt());
            }
            GeoKey::TexCoord
        } else if b0 == 118 && b1 == 110 {
            proof {
                assert(t@ =~= kw_vn());
            }
            GeoKey::Normal
        } else {
            GeoKey::Other
        }
    } else if n == 6 {
        if tok_eq(t, &usemtl_vec()) {
            GeoKey::UseMaterial
        } else if tok_eq(t, &mtllib_vec()) {
            GeoKey::MaterialLib
        } else {
            GeoKey::Other
        }
    } else {
        GeoKey::Other
    }
}

/// What a material-library line's leading token selects.
#[derive(Debug, Clone, Copy, PartialEq, Eq, Structural)]
pub enum MtlKey {
    /// "newmtl": open a material block.
    NewMaterial,
    /// "Ns": specular exponent.
    SpecularExponent,
    /// "Ka": ambient color.
    AmbientColor,
    /// "Kd": diffuse color.
    DiffuseColor,
    /// "Ks": specular color.
    SpecularColor,
    /// "Ke": emissive color.
    EmissiveColor,
    /// "Ni": optical density.
    OpticalDensity,
    /// "d": opacity, given directly.
    Opacity,
    /// "Tr": opacity, given as one minus the value.
    Transmission,
    /// "illum": illumination mode.
    Illumination,
    /// "map_Bump": bump-map file path.
    BumpMap,
    /// "map_Kd": diffuse-texture file path.
    DiffuseMap,
    /// Anything else: ignored.
    Other,
}

pub open spec fn spec_mtl_key(t: Seq<u8>) -> MtlKey {
    if t == kw_newmtl() {
        MtlKey::NewMaterial
    } else if t == kw_ns() {
        MtlKey::SpecularExponent
    } else if t == kw_ka() {
        MtlKey::AmbientColor
    } else if t == kw_kd() {
        MtlKey::DiffuseColor
    } else if t == kw_ks() {
        MtlKey::SpecularColor
    } else if t == kw_ke() {
        MtlKey::EmissiveColor
    } else if t == kw_ni() {
        MtlKey::OpticalDensity
    } else if t == kw_d() {
        MtlKey::Opacity
    } else if t == kw_tr() {
        MtlKey::Transmission
    } else if t == kw_illum() {
        MtlKey::Illumination
    } else if t == kw_map_bump() {
        MtlKey::BumpMap
    } else if t == kw_map_kd() {
        MtlKey::DiffuseMap
    } else {
        MtlKey::Other
    }
}

/// Classifies a material-library line's leading token.
pub fn mtl_key(t: &Vec<u8>) -> (k: MtlKey)
    ensures
        k == spec_mtl_key(t@),
{
    let n: usize = t.len();
    if n == 1 {
        let b = t[0];
        if b == 100 {
            proof {
                assert(t@ =~= kw_d());
            }
            MtlKey::Opacity
        } else {
            MtlKey::Other
        }
    } else if n == 2 {
        let b0 = t[0];
        let b1 = t[1];
        if b0 == 78 && b1 == 115 {
            proof {
                assert(t@ =~= kw_ns());
            }
            MtlKey::SpecularExponent
        } else if b0 == 75 && b1 == 97 {
            proof {
                assert(t@ =~= kw_ka());
            }
            MtlKey::AmbientColor
        } else if b0 == 75 && b1 == 100 {
            proof {
                assert(t@ =~= kw_kd());
            }
            MtlKey::DiffuseColor
        } else if b0 == 75 && b1 == 115 {
            proof {
                assert(t@ =~= kw_ks());
            }
            MtlKey::SpecularColor
        } else if b0 == 75 && b1 == 101 {
            proof {
                assert(t@ =~= kw_ke());
            }
            MtlKey::EmissiveColor
        } else if b0 == 78 && b1 == 105 {
            proof {
                assert(t@ =~= kw_ni());
            }
            MtlKey::OpticalDensity
        } else if b0 == 84 && b1 == 114 {
            proof {
                assert(t@ =~= kw_tr());
            }
            MtlKey::Transmission
        } else {
            MtlKey::Other
        }
    } else if n == 5 {
        if tok_eq(t, &illum_vec()) {
            MtlKey::Illumination
        } else {
            MtlKey::Other
        }
    } else if n == 6 {
        if tok_eq(t, &newmtl_vec()) {
            MtlKey::NewMaterial
        } else if tok_eq(t, &map_kd_vec()) {
            MtlKey::DiffuseMap
        } else {
            MtlKey::Other
        }
    } else if n == 8 {
        if tok_eq(t, &map_bump_vec()) {
            MtlKey::BumpMap
        } else {
            MtlKey::Other
        }
    } else {
        MtlKey::Other
    }
}

} // verus!
