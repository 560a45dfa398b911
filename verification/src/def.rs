use vstd::prelude::*;

use crate::parser::{SpecSyntaxError, SyntaxError};

verus! {

/// Loader settings: the position scale factor, as an IEEE 754
/// single-precision bit pattern, and whether the second texture coordinate
/// is flipped to `1 - v`.
#[derive(PartialEq, Eq, Structural, Clone, Copy, Debug)]
pub struct ObjSettings {
    pub scale: u32,
    pub flip_v: bool,
}

impl Default for ObjSettings {
    /// The defaults: scale by 2.0, flip the second texture coordinate.
    fn default() -> (s: Self)
        ensures
            s.scale == crate::scalar::TWO_BITS,
            s.flip_v == true,
    {
        ObjSettings { scale: crate::scalar::TWO_BITS, flip_v: true }
    }
}

/// The directive keywords that appear in missing- and multiplicity-error
/// payloads.
#[derive(PartialEq, Eq, Structural, Clone, Copy, Debug)]
pub enum Keyword {
    Mtllib,
    O,
    Usemtl,
    MapKd,
}

impl DeepView for Keyword {
    type V = Keyword;

    open spec fn deep_view(&self) -> Keyword {
        *self
    }
}

/// One loaded object: a deduplicated vertex buffer (positions, texture
/// coordinates and normals of equal length, scalars as IEEE 754
/// single-precision bit patterns) and its fan-triangulated faces, each
/// triangle three 0-based indices into that buffer.
#[derive(PartialEq, Eq, Clone, Debug)]
pub struct Obj {
    pub name: Vec<u8>,
    pub material_key: Vec<u8>,
    pub positions: Vec<(u32, u32, u32)>,
    pub uvs: Vec<(u32, u32)>,
    pub normals: Vec<(u32, u32, u32)>,
    pub faces: Vec<(usize, usize, usize)>,
}

/// Mathematical image of `Obj`.
pub struct SpecObj {
    pub name: Seq<u8>,
    pub material_key: Seq<u8>,
    pub positions: Seq<(u32, u32, u32)>,
    pub uvs: Seq<(u32, u32)>,
    pub normals: Seq<(u32, u32, u32)>,
    pub faces: Seq<(usize, usize, usize)>,
}

impl DeepView for Obj {
    type V = SpecObj;

    open spec fn deep_view(&self) -> SpecObj {
        SpecObj {
            name: self.name@,
            material_key: self.material_key@,
            positions: self.positions@,
            uvs: self.uvs@,
            normals: self.normals@,
            faces: self.faces@,
        }
    }
}

impl Obj {
    /// Extension point for hidden-face culling against adjacent tiles; the
    /// mask computation is not implemented and the object is left as it is.
    pub fn calculate_culls(&mut self)
        ensures
            *final(self) == *old(self),
    {
    }
}

/// The loaded geometry of one source: its objects in file order, the single
/// material-library reference, and whether culling was requested.
#[derive(PartialEq, Eq, Clone, Debug)]
pub struct Geometry {
    pub objects: Vec<Obj>,
    pub mtllib: Vec<u8>,
    pub cull: bool,
}

/// Mathematical image of `Geometry`.
pub struct SpecGeometry {
    pub objects: Seq<SpecObj>,
    pub mtllib: Seq<u8>,
    pub cull: bool,
}

impl DeepView for Geometry {
    type V = SpecGeometry;

    open spec fn deep_view(&self) -> SpecGeometry {
        SpecGeometry {
            objects: self.objects.deep_view(),
            mtllib: self.mtllib@,
            cull: self.cull,
        }
    }
}

/// The view of an optional byte string.
pub open spec fn opt_bytes_view(o: Option<Vec<u8>>) -> Option<Seq<u8>> {
    match o {
        Some(v) => Some(v@),
        None => None,
    }
}

/// One named material: at most one diffuse-texture path.
#[derive(PartialEq, Eq, Clone, Debug)]
pub struct Mtl {
    pub name: Vec<u8>,
    pub diffuse_texture: Option<Vec<u8>>,
}

/// Mathematical image of `Mtl`.
pub struct SpecMtl {
    pub name: Seq<u8>,
    pub diffuse_texture: Option<Seq<u8>>,
}

impl DeepView for Mtl {
    type V = SpecMtl;

    open spec fn deep_view(&self) -> SpecMtl {
        SpecMtl { name: self.name@, diffuse_texture: opt_bytes_view(self.diffuse_texture) }
    }
}

/// The materials of one library, in file order, with distinct names.
#[derive(PartialEq, Eq, Clone, Debug)]
pub struct MtlCollection {
    pub materials: Vec<Mtl>,
}

impl DeepView for MtlCollection {
    type V = Seq<SpecMtl>;

    open spec fn deep_view(&self) -> Seq<SpecMtl> {
        self.materials.deep_view()
    }
}

/// The final artifact: the loaded objects, each of whose material names is
/// resolved in the accompanying material list.
#[derive(PartialEq, Eq, Clone, Debug)]
pub struct ObjCollection {
    pub objects: Vec<Obj>,
    pub materials: Vec<Mtl>,
}

/// A geometry-loading failure.
#[derive(PartialEq, Eq, Clone, Debug)]
pub enum ObjError {
    /// A face index (1-based, as written) at or beyond the table length.
    OutOfRangeIndex { index: usize, max: usize },
    /// A second object of the same name.
    DuplicateObj(Vec<u8>),
    /// A directive that must appear did not: `o` before vertex data, one
    /// `mtllib` per source, one `usemtl` per object.
    Missing(Keyword),
    /// A directive that may appear at most once appeared again.
    Multiple(Keyword),
    /// An unrecognized preprocessor flag.
    InvalidPreprocessor(Vec<u8>),
    /// A grammar failure.
    Syntax(SyntaxError),
    /// An object bound to a material name that the library does not define.
    UnknownMtl(Vec<u8>),
}

/// Mathematical image of `ObjError`.
pub enum SpecObjError {
    OutOfRangeIndex { index: int, max: int },
    DuplicateObj(Seq<u8>),
    Missing(Keyword),
    Multiple(Keyword),
    InvalidPreprocessor(Seq<u8>),
    Syntax(SpecSyntaxError),
    UnknownMtl(Seq<u8>),
}

impl DeepView for ObjError {
    type V = SpecObjError;

    open spec fn deep_view(&self) -> SpecObjError {
        match self {
            ObjError::OutOfRangeIndex { index, max } => SpecObjError::OutOfRangeIndex {
                index: *index as int,
                max: *max as int,
            },
            ObjError::DuplicateObj(n) => SpecObjError::DuplicateObj(n@),
            ObjError::Missing(k) => SpecObjError::Missing(*k),
            ObjError::Multiple(k) => SpecObjError::Multiple(*k),
            ObjError::InvalidPreprocessor(f) => SpecObjError::InvalidPreprocessor(f@),
            ObjError::Syntax(e) => SpecObjError::Syntax(e.deep_view()),
            ObjError::UnknownMtl(n) => SpecObjError::UnknownMtl(n@),
        }
    }
}

/// A material-loading failure.
#[derive(PartialEq, Eq, Clone, Debug)]
pub enum MtlError {
    /// A directive that must appear first did not: a material start before
    /// its texture reference.
    Missing(Keyword),
    /// A second `map_Kd` for one material.
    Multiple(Keyword),
    /// A second material of the same name.
    DuplicateMtl(Vec<u8>),
    /// A grammar failure.
    Syntax(SyntaxError),
}

/// Mathematical image of `MtlError`.
pub enum SpecMtlError {
    Missing(Keyword),
    Multiple(Keyword),
    DuplicateMtl(Seq<u8>),
    Syntax(SpecSyntaxError),
}

impl DeepView for MtlError {
    type V = SpecMtlError;

    open spec fn deep_view(&self) -> SpecMtlError {
        match self {
            MtlError::Missing(k) => SpecMtlError::Missing(*k),
            MtlError::Multiple(k) => SpecMtlError::Multiple(*k),
            MtlError::DuplicateMtl(n) => SpecMtlError::DuplicateMtl(n@),
            MtlError::Syntax(e) => SpecMtlError::Syntax(e.deep_view()),
        }
    }
}

/// A failure of the combined load: either side of the pipeline.
#[derive(PartialEq, Eq, Clone, Debug)]
pub enum LoadError {
    Obj(ObjError),
    Mtl(MtlError),
}

/// Mathematical image of `LoadError`.
pub enum SpecLoadError {
    Obj(SpecObjError),
    Mtl(SpecMtlError),
}

impl DeepView for LoadError {
    type V = SpecLoadError;

    open spec fn deep_view(&self) -> SpecLoadError {
        match self {
            LoadError::Obj(e) => SpecLoadError::Obj(e.deep_view()),
            LoadError::Mtl(e) => SpecLoadError::Mtl(e.deep_view()),
        }
    }
}

} // verus!
