//! Mesh resources: packed vertex data, indices and the consume-once resource
//! that carries them to a renderer.

use crate::asset::{Mode, Semantic};
use crate::entity::EntityId;
use crate::error::Error;
use crate::format::VertexFormat;
use vstd::prelude::*;

verus! {

/// Component of a mesh instance: refers to the entity that carries the mesh
/// resource. Many instances may refer to one resource.
#[derive(Debug, Clone, Copy, PartialEq, Eq, Structural)]
pub struct Mesh {
    mesh_resource: EntityId,
}

impl Mesh {
    /// The instance that refers to entity `mesh_resource_id`.
    pub closed spec fn spec_from_resource(mesh_resource_id: EntityId) -> Mesh {
        Mesh { mesh_resource: mesh_resource_id }
    }

    /// An instance of the mesh resource that entity `mesh_resource_id`
    /// carries.
    #[verifier::when_used_as_spec(spec_from_resource)]
    pub fn from_resource(mesh_resource_id: EntityId) -> (mesh: Self)
        ensures
            mesh == Self::spec_from_resource(mesh_resource_id),
            mesh.spec_mesh_resource_id() == mesh_resource_id,
    {
        Mesh { mesh_resource: mesh_resource_id }
    }

    /// The entity that carries the mesh resource.
    pub closed spec fn spec_mesh_resource_id(&self) -> EntityId {
        self.mesh_resource
    }

    /// The entity that carries the mesh resource.
    #[verifier::when_used_as_spec(spec_mesh_resource_id)]
    pub fn mesh_resource_id(&self) -> (id: EntityId)
        ensures
            id == self.spec_mesh_resource_id(),
    {
        self.mesh_resource
    }

    /// An instance is told by the entity it refers to.
    pub proof fn lemma_instance_of(self)
        ensures
            self == Self::spec_from_resource(self.spec_mesh_resource_id()),
            forall|id: EntityId|
                (#[trigger] Self::spec_from_resource(id)).spec_mesh_resource_id() == id,
    {
    }
}

/// How vertices are grouped into drawable primitives.
#[derive(Debug, Clone, Copy, PartialEq, Eq, Hash, Structural)]
pub enum Assembly {
    Points,
    Lines,
    LineLoop,
    LineStrip,
    Triangles,
    TriangleStrip,
    TriangleFan,
}

impl Assembly {
    /// The assembly that draws a primitive of the given mode.
    pub open spec fn spec_from_mode(mode: Mode) -> Assembly {
        match mode {
            Mode::Points => Assembly::Points,
            Mode::Lines => Assembly::Lines,
            Mode::LineLoop => Assembly::LineLoop,
            Mode::LineStrip => Assembly::LineStrip,
            Mode::Triangles => Assembly::Triangles,
            Mode::TriangleStrip => Assembly::TriangleStrip,
            Mode::TriangleFan => Assembly::TriangleFan,
        }
    }

    /// Maps a primitive's mode to the assembly of the same name.
    pub fn from_mode(mode: Mode) -> (assembly: Assembly)
        ensures
            assembly == Self::spec_from_mode(mode),
    {
        match mode {
            Mode::Points => Assembly::Points,
            Mode::Lines => Assembly::Lines,
            Mode::LineLoop => Assembly::LineLoop,
            Mode::LineStrip => Assembly::LineStrip,
            Mode::Triangles => Assembly::Triangles,
            Mode::TriangleStrip => Assembly::TriangleStrip,
            Mode::TriangleFan => Assembly::TriangleFan,
        }
    }
}

/// Kind of a vertex attribute.
#[derive(Debug, Clone, Copy, PartialEq, Eq, Structural)]
pub enum Attribute {
    Positions,
    Normals,
    Tangents,
    /// Vertex colours of the given set.
    Color(u32),
    /// Texture coordinates of the given set.
    TexCoords(u32),
}

impl Attribute {
    /// The attribute kind a semantic stands for, where it is a recognised one.
    pub open spec fn spec_try_from_gltf_semantic(semantic: Semantic) -> Option<Attribute> {
        match semantic {
            Semantic::Positions => Some(Attribute::Positions),
            Semantic::Normals => Some(Attribute::Normals),
            Semantic::Tangents => Some(Attribute::Tangents),
            Semantic::Colors(set) => Some(Attribute::Color(set)),
            Semantic::TexCoords(set) => Some(Attribute::TexCoords(set)),
            Semantic::Joints(_) | Semantic::Weights(_) => None,
        }
    }

    /// Maps a semantic to its attribute kind, keeping the set index. Joints and
    /// weights are not recognised.
    pub fn try_from_gltf_semantic(semantic: Semantic) -> (attribute: Option<Self>)
        ensures
            attribute == Self::spec_try_from_gltf_semantic(semantic),
            attribute.is_none() <==> (semantic is Joints || semantic is Weights),
    {
        Some(
            match semantic {
                Semantic::Positions => Attribute::Positions,
                Semantic::Normals => Attribute::Normals,
                Semantic::Tangents => Attribute::Tangents,
                Semantic::Colors(x) => Attribute::Color(x),
                Semantic::TexCoords(x) => Attribute::TexCoords(x),
                _ => return None,
            },
        )
    }
}

/// Maps a semantic to its attribute kind. A semantic that is not recognised
/// is an error that names it.
pub fn map_semantic(semantic: Semantic) -> (mapped: Result<Attribute, Error>)
    ensures
        match mapped {
            Ok(attribute) => Attribute::spec_try_from_gltf_semantic(semantic) == Some(attribute),
            Err(error) => {
                &&& error == Error::UnsupportedSemantic(semantic)
                &&& (semantic is Joints || semantic is Weights)
            },
        },
{
    match Attribute::try_from_gltf_semantic(semantic) {
        Some(attribute) => Ok(attribute),
        None => Err(Error::UnsupportedSemantic(semantic)),
    }
}

/// Index data of a primitive.
#[derive(Debug, Clone)]
pub enum Indices {
    U16(Vec<u16>),
    U32(Vec<u32>),
}

impl Indices {
    /// The indices as numbers, whatever their width.
    pub open spec fn values(&self) -> Seq<nat> {
        match self {
            Indices::U16(v) => v@.map_values(|x: u16| x as nat),
            Indices::U32(v) => v@.map_values(|x: u32| x as nat),
        }
    }

    /// Number of indices.
    pub fn len(&self) -> (n: usize)
        ensures
            n == self.values().len(),
    {
        match self {
            Indices::U16(v) => v.len(),
            Indices::U32(v) => v.len(),
        }
    }
}

/// Sum of the byte sizes of the formats: the size of one packed vertex.
pub open spec fn vertex_size(attributes: Seq<(Attribute, VertexFormat)>) -> nat
    decreases attributes.len(),
{
    if attributes.len() == 0 {
        0
    } else {
        vertex_size(attributes.drop_last()) + attributes.last().1.spec_size() as nat
    }
}

/// Mathematical content of a [`VertexData`].
pub struct VertexDataView {
    pub data: Seq<u8>,
    pub attributes: Seq<(Attribute, VertexFormat)>,
    pub count: nat,
}

impl VertexDataView {
    /// The buffer holds exactly `count` packed vertices.
    pub open spec fn wf(self) -> bool {
        self.data.len() == vertex_size(self.attributes) * self.count
    }
}

/// A packed byte buffer with the attributes that say how to read it: the
/// attribute block of the first vertex, then that of the second, and so on.
#[derive(Debug)]
pub struct VertexData {
    data: Vec<u8>,
    attributes: Vec<(Attribute, VertexFormat)>,
    count: usize,
}

impl View for VertexData {
    type V = VertexDataView;

    closed spec fn view(&self) -> VertexDataView {
        VertexDataView { data: self.data@, attributes: self.attributes@, count: self.count as nat }
    }
}

/// Adds up the byte sizes of the formats, or gives `None` where the sum does
/// not fit.
pub fn checked_vertex_size(attributes: &Vec<(Attribute, VertexFormat)>) -> (size: Option<usize>)
    ensures
        match size {
            Some(s) => s == vertex_size(attributes@),
            None => vertex_size(attributes@) > usize::MAX,
        },
{
    let mut total: usize = 0;
    let mut i: usize = 0;
    while i < attributes.len()
        invariant
            i <= attributes.len(),
            total == vertex_size(attributes@.take(i as int)),
        decreases attributes.len() - i,
    {
        let size = attributes[i].1.size() as usize;
        proof {
            assert(attributes@.take(i + 1).drop_last() == attributes@.take(i as int));
            assert(attributes@.take(i + 1).last() == attributes@[i as int]);
        }
        match total.checked_add(size) {
            Some(next) => {
                total = next;
            },
            None => {
                proof {
                    lemma_vertex_size_monotonic(attributes@, i + 1);
                }
                return None;
            },
        }
        i += 1;
    }
    proof {
        assert(attributes@.take(i as int) == attributes@);
    }
    Some(total)
}

/// The size of a prefix of the attributes never exceeds the size of all.
pub proof fn lemma_vertex_size_monotonic(attributes: Seq<(Attribute, VertexFormat)>, n: int)
    requires
        0 <= n <= attributes.len(),
    ensures
        vertex_size(attributes.take(n)) <= vertex_size(attributes),
    decreases attributes.len(),
{
    if n == attributes.len() {
        assert(attributes.take(n) == attributes);
    } else {
        lemma_vertex_size_monotonic(attributes.drop_last(), n);
        assert(attributes.drop_last().take(n) == attributes.take(n));
    }
}

impl VertexData {
    #[verifier::type_invariant]
    spec fn inv(&self) -> bool {
        self@.wf()
    }

    /// Builds vertex data after checking that `data` holds exactly `count`
    /// vertices of the size the attributes add up to.
    pub fn new(data: Vec<u8>, attributes: Vec<(Attribute, VertexFormat)>, count: usize) -> (made:
        Result<Self, Error>)
        ensures
            match made {
                Ok(vertices) => {
                    &&& vertices@.data == data@
                    &&& vertices@.attributes == attributes@
                    &&& vertices@.count == count
                    &&& vertices@.wf()
                },
                Err(error) => {
                    &&& error == Error::InvalidVertexData
                    &&& data@.len() != vertex_size(attributes@) * count
                },
            },
    {
        let len = data.len();
        let size = match checked_vertex_size(&attributes) {
            Some(size) => size,
            None => {
                proof {
                    lemma_product_exceeds(vertex_size(attributes@), count as nat, len as nat);
                }
                if count == 0 && len == 0 {
                    // An empty buffer holds zero vertices of any size.
                    return Ok(VertexData { data, attributes, count });
                }
                return Err(Error::InvalidVertexData);
            },
        };
        match size.checked_mul(count) {
            Some(total) => {
                if total == len {
                    Ok(VertexData { data, attributes, count })
                } else {
                    Err(Error::InvalidVertexData)
                }
            },
            None => Err(Error::InvalidVertexData),
        }
    }

    /// The packed bytes.
    pub fn data(&self) -> (bytes: &[u8])
        ensures
            bytes@ == self@.data,
            bytes@.len() == vertex_size(self@.attributes) * self@.count,
    {
        proof {
            use_type_invariant(self);
        }
        self.data.as_slice()
    }

    /// The attributes in the order they are packed.
    pub fn attributes(&self) -> (attributes: &[(Attribute, VertexFormat)])
        ensures
            attributes@ == self@.attributes,
    {
        self.attributes.as_slice()
    }

    /// Number of vertices.
    pub fn count(&self) -> (count: usize)
        ensures
            count == self@.count,
    {
        self.count
    }
}

/// A vertex size beyond the machine's range times a count is zero or beyond
/// any buffer length.
proof fn lemma_product_exceeds(size: nat, count: nat, len: nat)
    requires
        size > usize::MAX,
        len <= usize::MAX,
    ensures
        count == 0 ==> size * count == 0,
        count > 0 ==> size * count > len,
{
    if count > 0 {
        assert(size * count >= size) by (nonlinear_arith)
            requires
                count >= 1,
        ;
    } else {
        assert(size * count == 0) by (nonlinear_arith)
            requires
                count == 0,
        ;
    }
}

/// Where a mesh resource stands in its life.
#[derive(Debug, Clone, Copy, PartialEq, Eq, Structural)]
pub enum ResourceState {
    /// Created and never given geometry.
    Empty,
    /// Holds geometry that has not been fetched.
    Populated,
    /// Its geometry has been fetched and not replaced.
    Fetched,
}

/// Mathematical content of a [`MeshResource`].
pub struct MeshResourceView {
    pub assembly: Assembly,
    pub state: ResourceState,
    pub indices: Option<Indices>,
    pub vertices: Option<VertexData>,
}

impl MeshResourceView {
    /// Geometry is held in the populated state and in no other.
    pub open spec fn wf(self) -> bool {
        &&& self.vertices.is_some() <==> self.state == ResourceState::Populated
        &&& self.vertices.is_none() ==> self.indices.is_none()
    }

    /// What a fetch hands out: the geometry, where the resource holds some.
    pub open spec fn payload(self) -> Option<(Option<Indices>, VertexData)> {
        match self.vertices {
            Some(vertices) => Some((self.indices, vertices)),
            None => None,
        }
    }

    /// The resource after an update with the given geometry. Indices that
    /// are not given leave the indices held so far in place.
    pub open spec fn updated(self, indices: Option<Indices>, vertices: VertexData) -> Self {
        MeshResourceView {
            assembly: self.assembly,
            state: ResourceState::Populated,
            indices: if indices.is_some() {
                indices
            } else {
                self.indices
            },
            vertices: Some(vertices),
        }
    }

    /// The resource after a fetch.
    pub open spec fn fetched(self) -> Self {
        MeshResourceView {
            assembly: self.assembly,
            state: if self.state == ResourceState::Populated {
                ResourceState::Fetched
            } else {
                self.state
            },
            indices: None,
            vertices: None,
        }
    }

    /// A fetch that directly follows a fetch hands out nothing.
    pub proof fn lemma_second_fetch_is_empty(self)
        ensures
            self.fetched().payload().is_none(),
            self.fetched().fetched() == self.fetched(),
    {
    }

    /// After an update the next fetch hands out the vertices of that update,
    /// and the fetch after it nothing.
    pub proof fn lemma_update_then_fetch(self, indices: Option<Indices>, vertices: VertexData)
        requires
            self.wf(),
        ensures
            self.updated(indices, vertices).wf(),
            self.updated(indices, vertices).payload().is_some(),
            self.updated(indices, vertices).payload().unwrap().1 == vertices,
            indices.is_some() || self.state != ResourceState::Populated ==> self.updated(
                indices,
                vertices,
            ).payload().unwrap().0 == indices,
            self.updated(indices, vertices).fetched().state == ResourceState::Fetched,
            self.updated(indices, vertices).fetched().payload().is_none(),
    {
    }
}

/// Geometry shared by the mesh instances that refer to it. A fetch moves the
/// geometry out; until the next update the resource holds none.
#[derive(Debug)]
pub struct MeshResource {
    assembly: Assembly,
    indices: Option<Indices>,
    vertices: Option<VertexData>,
    fetched: bool,
}

impl View for MeshResource {
    type V = MeshResourceView;

    closed spec fn view(&self) -> MeshResourceView {
        MeshResourceView {
            assembly: self.assembly,
            state: if self.vertices.is_some() {
                ResourceState::Populated
            } else if self.fetched {
                ResourceState::Fetched
            } else {
                ResourceState::Empty
            },
            indices: self.indices,
            vertices: self.vertices,
        }
    }
}

impl MeshResource {
    #[verifier::type_invariant]
    spec fn inv(&self) -> bool {
        self.vertices.is_none() ==> self.indices.is_none()
    }

    /// An empty resource that assembles triangles.
    pub fn new() -> (resource: Self)
        ensures
            resource@.wf(),
            resource@.assembly == Assembly::Triangles,
            resource@.state == ResourceState::Empty,
            resource@.payload().is_none(),
    {
        MeshResource { assembly: Assembly::Triangles, indices: None, vertices: None, fetched: false }
    }

    /// Sets the assembly and leaves the geometry alone.
    pub fn change_assembly(&mut self, assembly: Assembly)
        ensures
            final(self)@ == (MeshResourceView { assembly, ..old(self)@ }),
    {
        proof {
            use_type_invariant(&*self);
        }
        self.assembly = assembly;
    }

    /// The assembly last set, triangles at first.
    pub fn assembly(&self) -> (assembly: Assembly)
        ensures
            assembly == self@.assembly,
    {
        self.assembly
    }

    /// Gives the resource new geometry. Indices that are not given leave the
    /// indices held so far in place.
    pub fn update(&mut self, indices: Option<Indices>, vertices: VertexData)
        ensures
            final(self)@ == old(self)@.updated(indices, vertices),
            final(self)@.wf(),
    {
        proof {
            use_type_invariant(&*self);
        }
        self.vertices = Some(vertices);
        if let Some(indices) = indices {
            self.indices = Some(indices);
        }
    }

    /// Whether the resource holds geometry.
    pub fn has(&self) -> (held: bool)
        ensures
            held == (self@.state == ResourceState::Populated),
            held == self@.payload().is_some(),
    {
        self.vertices.is_some()
    }

    /// Moves the geometry out. From a resource that holds none it gives `None`
    /// and changes nothing.
    pub fn fetch(&mut self) -> (payload: Option<(Option<Indices>, VertexData)>)
        ensures
            payload == old(self)@.payload(),
            final(self)@ == old(self)@.fetched(),
            final(self)@.wf(),
            payload.is_some() <==> old(self)@.state == ResourceState::Populated,
    {
        proof {
            use_type_invariant(&*self);
        }
        if self.vertices.is_none() {
            return None;
        }
        let mut held = MeshResource {
            assembly: self.assembly,
            indices: None,
            vertices: None,
            fetched: true,
        };
        std::mem::swap(self, &mut held);
        match held.vertices {
            Some(vertices) => Some((held.indices, vertices)),
            None => None,
        }
    }
}

} // verus!
