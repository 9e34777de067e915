//! The model data types: vertices, meshes, materials and the assembled
//! model, together with their ghost views.
//!
//! Numeric fields hold validated source tokens (byte strings), not
//! machine numbers: the loader never computes with the values, and a
//! caller converts tokens at its own boundary.

use vstd::prelude::*;

verus! {

/// The error kinds of the loader.
#[derive(Debug, Clone, Copy, PartialEq, Eq, Structural)]
pub enum ObjLoadError {
    /// The main file or a referenced material library could not be read.
    FileLoadError,
    /// A position directive held a missing or malformed coordinate.
    InvalidPositionValue,
    /// A texture-coordinate directive held a missing or malformed coordinate.
    InvalidTextureCoordValue,
    /// A normal directive held a missing or malformed coordinate.
    InvalidNormalValue,
    /// A face directive held a bad corner count, a bad field count, a
    /// malformed or zero index, or an index with no pool entry.
    InvalidFaceValue,
    /// A material selection directive named no material.
    InvalidMaterialName,
    /// A material library was referenced without a path or held a
    /// malformed directive.
    InvalidMaterialLib,
}

/// Three numeric tokens, as a point or a color stands in the text.
pub struct Num3 {
    pub x: Vec<u8>,
    pub y: Vec<u8>,
    pub z: Vec<u8>,
}

/// Two numeric tokens, as a texture coordinate stands in the text.
pub struct Num2 {
    pub u: Vec<u8>,
    pub v: Vec<u8>,
}

pub ghost struct GNum3 {
    pub x: Seq<u8>,
    pub y: Seq<u8>,
    pub z: Seq<u8>,
}

pub ghost struct GNum2 {
    pub u: Seq<u8>,
    pub v: Seq<u8>,
}

impl View for Num3 {
    type V = GNum3;

    open spec fn view(&self) -> GNum3 {
        GNum3 { x: self.x@, y: self.y@, z: self.z@ }
    }
}

impl View for Num2 {
    type V = GNum2;

    open spec fn view(&self) -> GNum2 {
        GNum2 { u: self.u@, v: self.v@ }
    }
}

/// The token spelling zero, the default for every numeric field.
pub open spec fn zero_tok() -> Seq<u8> {
    seq![48u8]
}

pub open spec fn gnum3_zero() -> GNum3 {
    GNum3 { x: zero_tok(), y: zero_tok(), z: zero_tok() }
}

pub open spec fn gnum2_zero() -> GNum2 {
    GNum2 { u: zero_tok(), v: zero_tok() }
}

/// A fresh token spelling zero.
pub fn zero_token() -> (r: Vec<u8>)
    ensures
        r@ == zero_tok(),
{
    let mut v: Vec<u8> = Vec::new();
    v.push(48);
    proof {
        assert(v@ =~= zero_tok());
    }
    v
}

/// A fresh all-zero coordinate triple.
pub fn num3_zero() -> (r: Num3)
    ensures
        r@ == gnum3_zero(),
{
    Num3 { x: zero_token(), y: zero_token(), z: zero_token() }
}

/// A fresh all-zero coordinate pair.
pub fn num2_zero() -> (r: Num2)
    ensures
        r@ == gnum2_zero(),
{
    Num2 { u: zero_token(), v: zero_token() }
}

/// One output vertex: a materialized copy of the attribute tokens its
/// corner referenced.
pub struct ModelVertex {
    pub position: Num3,
    pub texture_coords: Num2,
    pub normal: Num3,
}

pub ghost struct GModelVertex {
    pub position: GNum3,
    pub texture_coords: GNum2,
    pub normal: GNum3,
}

impl View for ModelVertex {
    type V = GModelVertex;

    open spec fn view(&self) -> GModelVertex {
        GModelVertex {
            position: self.position@,
            texture_coords: self.texture_coords@,
            normal: self.normal@,
        }
    }
}

impl ModelVertex {
    /// Assembles a vertex from its three attributes.
    pub fn new(position: Num3, texture_coords: Num2, normal: Num3) -> (r: ModelVertex)
        ensures
            r@ == (GModelVertex {
                position: position@,
                texture_coords: texture_coords@,
                normal: normal@,
            }),
    {
        ModelVertex { position, texture_coords, normal }
    }
}

/// The key identifying an output vertex: the corner's attribute-pool
/// indices, each already 0-based. An absent texture coordinate or
/// normal is `None`, distinct from index 0.
#[derive(Debug, Clone, Copy)]
pub struct VertexIndices {
    pub position: usize,
    pub texture_coord: Option<usize>,
    pub normal: Option<usize>,
}

/// A face, tagged by its corner count. Any other corner count is a
/// parse error, never a value of this type.
#[derive(Debug, Clone, Copy)]
pub enum Face {
    Point(VertexIndices),
    Line(VertexIndices, VertexIndices),
    Triangle(VertexIndices, VertexIndices, VertexIndices),
    Quad(VertexIndices, VertexIndices, VertexIndices, VertexIndices),
}

/// The illumination modes a material library may name, in the order of
/// their mode numbers 0 to 10.
#[derive(Debug, Clone, Copy, PartialEq, Eq, Structural)]
pub enum MaterialIllumination {
    ColorAmbientOff,
    ColorAmbientOn,
    Highlight,
    ReflectionRayTrace,
    TransparencyGlassRayTrace,
    ReflectionFresnelRayTrace,
    TransparencyRefractionRayTrace,
    TransparencyFresnelRayTrace,
    Reflection,
    TransparencyGlass,
    CastShadows,
}

/// The illumination mode named by a mode number; numbers outside 0 to
/// 10 name no mode and are not an error.
pub open spec fn spec_illumination_mode(mode: u32) -> Option<MaterialIllumination> {
    if mode == 0 {
        Some(MaterialIllumination::ColorAmbientOff)
    } else if mode == 1 {
        Some(MaterialIllumination::ColorAmbientOn)
    } else if mode == 2 {
        Some(MaterialIllumination::Highlight)
    } else if mode == 3 {
        Some(MaterialIllumination::ReflectionRayTrace)
    } else if mode == 4 {
        Some(MaterialIllumination::TransparencyGlassRayTrace)
    } else if mode == 5 {
        Some(MaterialIllumination::ReflectionFresnelRayTrace)
    } else if mode == 6 {
        Some(MaterialIllumination::TransparencyRefractionRayTrace)
    } else if mode == 7 {
        Some(MaterialIllumination::TransparencyFresnelRayTrace)
    } else if mode == 8 {
        Some(MaterialIllumination::Reflection)
    } else if mode == 9 {
        Some(MaterialIllumination::TransparencyGlass)
    } else if mode == 10 {
        Some(MaterialIllumination::CastShadows)
    } else {
        None
    }
}

/// Maps a mode number to its illumination mode.
pub fn load_illumination_mode(mode: u32) -> (r: Option<MaterialIllumination>)
    ensures
        r == spec_illumination_mode(mode),
{
    match mode {
        0 => Some(MaterialIllumination::ColorAmbientOff),
        1 => Some(MaterialIllumination::ColorAmbientOn),
        2 => Some(MaterialIllumination::Highlight),
        3 => Some(MaterialIllumination::ReflectionRayTrace),
        4 => Some(MaterialIllumination::TransparencyGlassRayTrace),
        5 => Some(MaterialIllumination::ReflectionFresnelRayTrace),
        6 => Some(MaterialIllumination::TransparencyRefractionRayTrace),
        7 => Some(MaterialIllumination::TransparencyFresnelRayTrace),
        8 => Some(MaterialIllumination::Reflection),
        9 => Some(MaterialIllumination::TransparencyGlass),
        10 => Some(MaterialIllumination::CastShadows),
        _ => None,
    }
}

/// A named material record. Numeric fields hold the tokens the library
/// file gave; `opacity_complemented` says whether the opacity came from
/// a transmission directive, whose real opacity is one minus the value.
pub struct Material {
    pub specular_exponent: Vec<u8>,
    pub specular_color: Num3,
    pub ambient_color: Num3,
    pub diffuse_color: Num3,
    pub emissive_color: Num3,
    pub optical_density: Vec<u8>,
    pub opacity: Vec<u8>,
    pub opacity_complemented: bool,
    pub illumination_mode: Option<MaterialIllumination>,
    pub bump_map_file: Vec<u8>,
    pub diffuse_texture_file: Vec<u8>,
}

pub ghost struct GMaterial {
    pub specular_exponent: Seq<u8>,
    pub specular_color: GNum3,
    pub ambient_color: GNum3,
    pub diffuse_color: GNum3,
    pub emissive_color: GNum3,
    pub optical_density: Seq<u8>,
    pub opacity: Seq<u8>,
    pub opacity_complemented: bool,
    pub illumination_mode: Option<MaterialIllumination>,
    pub bump_map_file: Seq<u8>,
    pub diffuse_texture_file: Seq<u8>,
}

impl View for Material {
    type V = GMaterial;

    open spec fn view(&self) -> GMaterial {
        GMaterial {
            specular_exponent: self.specular_exponent@,
            specular_color: self.specular_color@,
            ambient_color: self.ambient_color@,
            diffuse_color: self.diffuse_color@,
            emissive_color: self.emissive_color@,
            optical_density: self.optical_density@,
            opacity: self.opacity@,
            opacity_complemented: self.opacity_complemented,
            illumination_mode: self.illumination_mode,
            bump_map_file: self.bump_map_file@,
            diffuse_texture_file: self.diffuse_texture_file@,
        }
    }
}

/// The material every block starts from: zero tokens, no illumination
/// mode, empty file paths.
pub open spec fn gmaterial_default() -> GMaterial {
    GMaterial {
        specular_exponent: zero_tok(),
        specular_color: gnum3_zero(),
        ambient_color: gnum3_zero(),
        diffuse_color: gnum3_zero(),
        emissive_color: gnum3_zero(),
        optical_density: zero_tok(),
        opacity: zero_tok(),
        opacity_complemented: false,
        illumination_mode: None,
        bump_map_file: seq![],
        diffuse_texture_file: seq![],
    }
}

impl Default for Material {
    /// The all-default material record.
    fn default() -> (m: Material)
        ensures
            m@ == gmaterial_default(),
    {
        Material {
            specular_exponent: zero_token(),
            specular_color: num3_zero(),
            ambient_color: num3_zero(),
            diffuse_color: num3_zero(),
            emissive_color: num3_zero(),
            optical_density: zero_token(),
            opacity: zero_token(),
            opacity_complemented: false,
            illumination_mode: None,
            bump_map_file: Vec::new(),
            diffuse_texture_file: Vec::new(),
        }
    }
}

/// One exported mesh: vertices in first-occurrence order, indices into
/// them, and the index of its material in the model, when one resolved.
pub struct Mesh {
    pub name: Vec<u8>,
    pub vertices: Vec<ModelVertex>,
    pub indices: Vec<u32>,
    pub material: Option<usize>,
}

pub ghost struct GMesh {
    pub name: Seq<u8>,
    pub vertices: Seq<GModelVertex>,
    pub indices: Seq<u32>,
    pub material: Option<usize>,
}

/// The views of a sequence of vertices.
pub open spec fn vertex_views(s: Seq<ModelVertex>) -> Seq<GModelVertex> {
    s.map_values(|v: ModelVertex| v@)
}

impl View for Mesh {
    type V = GMesh;

    open spec fn view(&self) -> GMesh {
        GMesh {
            name: self.name@,
            vertices: vertex_views(self.vertices@),
            indices: self.indices@,
            material: self.material,
        }
    }
}

/// The assembled model: its meshes and the materials they index into.
pub struct Model {
    pub meshes: Vec<Mesh>,
    pub materials: Vec<Material>,
}

pub ghost struct GModel {
    pub meshes: Seq<GMesh>,
    pub materials: Seq<GMaterial>,
}

/// The views of a sequence of meshes.
pub open spec fn mesh_views(s: Seq<Mesh>) -> Seq<GMesh> {
    s.map_values(|m: Mesh| m@)
}

/// The views of a sequence of materials.
pub open spec fn material_views(s: Seq<Material>) -> Seq<GMaterial> {
    s.map_values(|m: Material| m@)
}

/// The views of a sequence of coordinate triples.
pub open spec fn num3_views(s: Seq<Num3>) -> Seq<GNum3> {
    s.map_values(|p: Num3| p@)
}

/// The views of a sequence of coordinate pairs.
pub open spec fn num2_views(s: Seq<Num2>) -> Seq<GNum2> {
    s.map_values(|p: Num2| p@)
}

impl View for Model {
    type V = GModel;

    open spec fn view(&self) -> GModel {
        GModel { meshes: mesh_views(self.meshes@), materials: material_views(self.materials@) }
    }
}


/// Pushing a triple and pushing its view commute.
pub proof fn lemma_num3_views_push(s: Seq<Num3>, p: Num3)
    ensures
        num3_views(s.push(p)) == num3_views(s).push(p@),
{
    assert(num3_views(s.push(p)) =~= num3_views(s).push(p@));
}

/// Pushing a pair and pushing its view commute.
pub proof fn lemma_num2_views_push(s: Seq<Num2>, p: Num2)
    ensures
        num2_views(s.push(p)) == num2_views(s).push(p@),
{
    assert(num2_views(s.push(p)) =~= num2_views(s).push(p@));
}

/// Pushing a mesh and pushing its view commute.
pub proof fn lemma_mesh_views_push(s: Seq<Mesh>, m: Mesh)
    ensures
        mesh_views(s.push(m)) == mesh_views(s).push(m@),
{
    assert(mesh_views(s.push(m)) =~= mesh_views(s).push(m@));
}

/// Pushing a material and pushing its view commute.
pub proof fn lemma_material_views_push(s: Seq<Material>, m: Material)
    ensures
        material_views(s.push(m)) == material_views(s).push(m@),
{
    assert(material_views(s.push(m)) =~= material_views(s).push(m@));
}

} // verus!

