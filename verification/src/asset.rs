//! Structural description of an asset document: what the importer reads of
//! buffers, accessors, primitives, nodes and cameras.

use crate::format::{DataType, Dimensions};
use vstd::prelude::*;

verus! {

/// Declared meaning of a vertex attribute.
#[derive(Debug, Clone, Copy, PartialEq, Eq, Structural)]
pub enum Semantic {
    Positions,
    Normals,
    Tangents,
    /// Vertex colours of the given set.
    Colors(u32),
    /// Texture coordinates of the given set.
    TexCoords(u32),
    /// Skinning joints of the given set.
    Joints(u32),
    /// Skinning weights of the given set.
    Weights(u32),
}

/// How the vertices of a primitive are grouped for drawing.
#[derive(Debug, Clone, Copy, PartialEq, Eq, Structural)]
pub enum Mode {
    Points,
    Lines,
    LineLoop,
    LineStrip,
    Triangles,
    TriangleStrip,
    TriangleFan,
}

/// Byte range of one buffer. A stride marks interleaved memory.
#[derive(Debug, Clone, Copy, PartialEq, Eq, Structural)]
pub struct BufferView {
    /// Position of the owning buffer among the asset's buffers.
    pub buffer: usize,
    /// First byte of the range.
    pub offset: usize,
    /// Number of bytes in the range.
    pub length: usize,
    /// Distance in bytes between two elements, where the view declares one.
    pub stride: Option<usize>,
}

/// Typed description of the elements stored in a buffer view.
#[derive(Debug, Clone, Copy, PartialEq, Eq, Structural)]
pub struct Accessor {
    pub data_type: DataType,
    pub dimensions: Dimensions,
    /// Number of elements.
    pub count: usize,
    /// The view that backs the accessor; `None` for sparse storage.
    pub view: Option<BufferView>,
}

/// One drawable part of a mesh.
#[derive(Debug, Clone)]
pub struct Primitive {
    pub mode: Mode,
    pub indices: Option<Accessor>,
    /// Attributes in declaration order.
    pub attributes: Vec<(Semantic, Accessor)>,
}

/// A mesh of the asset: its primitives in declaration order.
#[derive(Debug, Clone)]
pub struct MeshEntry {
    pub primitives: Vec<Primitive>,
}

/// Where the bytes of a buffer come from.
#[derive(Debug, Clone)]
pub enum BufferSource {
    /// The binary chunk embedded in the asset file.
    Bin,
    /// A file named by a relative or absolute path.
    Uri(String),
}

/// Where the bytes of an image come from.
#[derive(Debug, Clone)]
pub enum ImageSource {
    /// A buffer view inside the asset.
    View,
    /// A file named by a relative or absolute path.
    Uri(String),
}

/// Kind of projection a camera declares, with the presence of the optional
/// perspective parameters.
#[derive(Debug, Clone, Copy, PartialEq, Eq, Structural)]
pub enum Projection {
    Orthographic,
    Perspective { has_aspect_ratio: bool, has_zfar: bool },
}

/// Form in which a node gives its local transform.
#[derive(Debug, Clone, Copy, PartialEq, Eq, Structural)]
pub enum TransformKind {
    /// A raw 4x4 matrix.
    Matrix,
    /// Translation, rotation and scale.
    Decomposed,
}

/// One node of the asset.
#[derive(Debug, Clone, Copy, PartialEq, Eq, Structural)]
pub struct AssetNode {
    /// Position of the referenced mesh among the asset's meshes.
    pub mesh: Option<usize>,
    /// Position of the referenced camera among the asset's cameras.
    pub camera: Option<usize>,
    pub transform: TransformKind,
}

/// A texture of the asset: the position of its image among the asset's images.
#[derive(Debug, Clone, Copy, PartialEq, Eq, Structural)]
pub struct TextureEntry {
    pub source: usize,
}

/// The parsed document, read-only for the duration of one load.
#[derive(Debug, Clone)]
pub struct Asset {
    pub buffers: Vec<BufferSource>,
    pub images: Vec<ImageSource>,
    pub textures: Vec<TextureEntry>,
    pub meshes: Vec<MeshEntry>,
    pub cameras: Vec<Projection>,
    pub nodes: Vec<AssetNode>,
}

} // verus!
