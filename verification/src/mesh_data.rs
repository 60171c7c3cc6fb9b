//! Mesh data kept as it lies in the buffers: the raw bytes with a
//! description of where each attribute stands in them.

use crate::entity::EntityId;
use crate::error::{Error, Feature};
use crate::format::VertexFormat;
use crate::mesh::Indices;
use vstd::prelude::*;

verus! {

/// Kind of an attribute of raw mesh data.
#[derive(Debug, Clone, Copy, PartialEq, Eq, Structural)]
pub enum AttributeType {
    Position,
    Normal,
    Color,
    /// Texture coordinates of the given set.
    TexCoord(u32),
}

/// Where one attribute stands in raw mesh data.
#[derive(Debug, Clone, Copy, PartialEq, Eq, Structural)]
pub struct Attribute {
    /// The kind of the attribute.
    pub ty: AttributeType,
    /// The format of one element.
    pub data_type: VertexFormat,
    /// The number of elements.
    pub count: usize,
    /// The offset of the first element in bytes.
    pub offset: usize,
}

/// Layout of the vertices of raw mesh data.
#[derive(Debug, Clone)]
pub enum Vertices {
    /// The attributes and the stride in bytes.
    Interleaved(Vec<Attribute>, usize),
    /// The attributes, each with an array of its own.
    Separate(Vec<Attribute>),
}

impl Vertices {
    /// Hands back vertices that are separate already. Taking interleaved
    /// vertices apart is not carried out.
    pub fn into_separate(self) -> (converted: Result<Self, Error>)
        ensures
            match converted {
                Ok(vertices) => self is Separate && vertices == self,
                Err(error) => self is Interleaved && error == Error::Unimplemented(
                    Feature::InterleavedLayout,
                ),
            },
    {
        match self {
            Vertices::Interleaved(_, _) => Err(Error::Unimplemented(Feature::InterleavedLayout)),
            Vertices::Separate(_) => Ok(self),
        }
    }

    /// Hands back vertices that are interleaved already. Weaving separate
    /// vertices together is not carried out.
    pub fn into_interleaved(self) -> (converted: Result<Self, Error>)
        ensures
            match converted {
                Ok(vertices) => self is Interleaved && vertices == self,
                Err(error) => self is Separate && error == Error::Unimplemented(
                    Feature::InterleavedLayout,
                ),
            },
    {
        match self {
            Vertices::Interleaved(_, _) => Ok(self),
            Vertices::Separate(_) => Err(Error::Unimplemented(Feature::InterleavedLayout)),
        }
    }
}

/// Raw mesh data with the entity that carries its material.
#[derive(Debug, Clone)]
pub struct MeshData {
    pub data: Vec<u8>,
    pub indices: Option<Indices>,
    pub vertices: Vertices,
    pub material: EntityId,
}

/// Component of a mesh instance: refers to the entity that carries the mesh
/// data.
#[derive(Debug, Clone, Copy, PartialEq, Eq, Structural)]
pub struct Mesh {
    data_id: EntityId,
}

impl Mesh {
    /// An instance of the mesh data that entity `data_id` carries.
    pub fn from_data(data_id: EntityId) -> (mesh: Self)
        ensures
            mesh.spec_mesh_data_id() == data_id,
    {
        Self { data_id }
    }

    /// The entity that carries the mesh data.
    pub closed spec fn spec_mesh_data_id(&self) -> EntityId {
        self.data_id
    }

    /// The entity that carries the mesh data.
    #[verifier::when_used_as_spec(spec_mesh_data_id)]
    pub fn mesh_data_id(&self) -> (id: EntityId)
        ensures
            id == self.spec_mesh_data_id(),
    {
        self.data_id
    }
}

} // verus!
