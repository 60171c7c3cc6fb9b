//! Loading meshes: each primitive of the asset becomes one mesh resource.

use crate::assemble::{
    assemble_separate, described, packed, regions_hold, sources_of, AttributeSource,
};
use crate::asset::{Accessor, Asset, MeshEntry, Primitive, Semantic};
use crate::error::{first_error, lemma_first_error_at, lemma_first_error_none, Error, Feature};
use crate::format::{map_format, VertexFormat};
use crate::indices::{index_error, indices_of, read_indices};
use crate::layout::{classify_layout, layout_of, BufferLayout};
use crate::mesh::{
    map_semantic, vertex_size, Assembly, Attribute, MeshResource, MeshResourceView,
    ResourceState, VertexData, VertexDataView,
};
use vstd::prelude::*;

verus! {

/// Why the attribute cannot be used, if it cannot. The semantic is judged
/// first, then the element type, then the presence of a view.
pub open spec fn attribute_error(attribute: (Semantic, Accessor)) -> Option<Error> {
    if Attribute::spec_try_from_gltf_semantic(attribute.0).is_none() {
        Some(Error::UnsupportedSemantic(attribute.0))
    } else if VertexFormat::spec_try_from_gltf(attribute.1.data_type, attribute.1.dimensions)
        .is_none() {
        Some(Error::UnsupportedDataTypeOrDimensions)
    } else if attribute.1.view.is_none() {
        Some(Error::UnsupportedSparseStorage)
    } else {
        None
    }
}

/// The attribute with its kind, format and view looked up.
pub open spec fn resolved(attribute: (Semantic, Accessor)) -> AttributeSource {
    AttributeSource {
        kind: Attribute::spec_try_from_gltf_semantic(attribute.0).unwrap(),
        format: VertexFormat::spec_try_from_gltf(
            attribute.1.data_type,
            attribute.1.dimensions,
        ).unwrap(),
        view: attribute.1.view.unwrap(),
    }
}

/// All attributes resolved, in declaration order.
pub open spec fn resolved_all(attributes: Seq<(Semantic, Accessor)>) -> Seq<AttributeSource> {
    Seq::new(attributes.len(), |i: int| resolved(attributes[i]))
}

/// What each attribute has to object, in declaration order.
pub open spec fn attribute_errors(attributes: Seq<(Semantic, Accessor)>) -> Seq<Option<Error>> {
    Seq::new(attributes.len(), |i: int| attribute_error(attributes[i]))
}

/// Number of vertices of a primitive: the element count of its last
/// attribute, zero without attributes.
pub open spec fn vertex_count(attributes: Seq<(Semantic, Accessor)>) -> nat {
    if attributes.len() == 0 {
        0
    } else {
        attributes.last().1.count as nat
    }
}

/// Why the primitive cannot be loaded, if it cannot. The indices are judged
/// first, then the attributes in declaration order, then the layout, then
/// the byte ranges of the attribute arrays.
pub open spec fn primitive_error(primitive: Primitive, buffers: Seq<Vec<u8>>) -> Option<Error> {
    let attributes = primitive.attributes@;
    if primitive.indices.is_some() && index_error(primitive.indices.unwrap(), buffers).is_some() {
        index_error(primitive.indices.unwrap(), buffers)
    } else if first_error(attribute_errors(attributes)).is_some() {
        first_error(attribute_errors(attributes))
    } else {
        match layout_of(attributes) {
            Err(error) => Some(error),
            Ok(BufferLayout::Interleaved) => Some(Error::Unimplemented(Feature::InterleavedLayout)),
            Ok(BufferLayout::Separate) => if regions_hold(
                resolved_all(attributes),
                buffers,
                vertex_count(attributes),
            ) {
                None
            } else {
                Some(Error::CorruptBufferView)
            },
        }
    }
}

/// The vertex data that a primitive with separate arrays packs into.
pub open spec fn packed_vertices(primitive: Primitive, buffers: Seq<Vec<u8>>) -> VertexDataView {
    let attributes = resolved_all(primitive.attributes@);
    let count = vertex_count(primitive.attributes@);
    VertexDataView {
        data: packed(sources_of(attributes, buffers), count),
        attributes: described(attributes),
        count,
    }
}

/// The resource holds the geometry of the primitive: its assembly, its
/// indices where it has some, and its packed vertices.
pub open spec fn holds_primitive(
    resource: MeshResourceView,
    primitive: Primitive,
    buffers: Seq<Vec<u8>>,
) -> bool {
    &&& resource.wf()
    &&& resource.assembly == Assembly::spec_from_mode(primitive.mode)
    &&& resource.state == ResourceState::Populated
    &&& match primitive.indices {
        None => resource.indices.is_none(),
        Some(accessor) => match resource.indices {
            Some(indices) => indices_of(indices, accessor, buffers),
            None => false,
        },
    }
    &&& match resource.vertices {
        Some(vertices) => vertices@ == packed_vertices(primitive, buffers),
        None => false,
    }
}

/// Looks up kind, format and view of each attribute of the primitive.
pub fn resolve_attributes(primitive: &Primitive) -> (sources: Result<Vec<AttributeSource>, Error>)
    ensures
        match sources {
            Ok(sources) => {
                &&& first_error(attribute_errors(primitive.attributes@)).is_none()
                &&& sources@ == resolved_all(primitive.attributes@)
            },
            Err(error) => first_error(attribute_errors(primitive.attributes@)) == Some(error),
        },
{
    let ghost steps = attribute_errors(primitive.attributes@);
    let mut sources: Vec<AttributeSource> = Vec::new();
    let mut i: usize = 0;
    while i < primitive.attributes.len()
        invariant
            i <= primitive.attributes.len(),
            steps == attribute_errors(primitive.attributes@),
            forall|j: int| 0 <= j < i ==> steps[j].is_none(),
            sources@.len() == i,
            forall|j: int| 0 <= j < i ==> sources@[j] == resolved(primitive.attributes@[j]),
        decreases primitive.attributes.len() - i,
    {
        let semantic = primitive.attributes[i].0;
        let accessor = primitive.attributes[i].1;
        let kind = match map_semantic(semantic) {
            Ok(kind) => kind,
            Err(error) => {
                proof {
                    lemma_first_error_at(steps, i as int);
                }
                return Err(error);
            },
        };
        let format = match map_format(accessor.data_type, accessor.dimensions) {
            Ok(format) => format,
            Err(error) => {
                proof {
                    lemma_first_error_at(steps, i as int);
                }
                return Err(error);
            },
        };
        let view = match accessor.view {
            Some(view) => view,
            None => {
                proof {
                    lemma_first_error_at(steps, i as int);
                }
                return Err(Error::UnsupportedSparseStorage);
            },
        };
        sources.push(AttributeSource { kind, format, view });
        i += 1;
    }
    proof {
        lemma_first_error_none(steps);
        assert(sources@ =~= resolved_all(primitive.attributes@));
    }
    Ok(sources)
}

/// Kind and format of each resolved attribute, in order.
pub fn describe(sources: &Vec<AttributeSource>) -> (pairs: Vec<(Attribute, VertexFormat)>)
    ensures
        pairs@ == described(sources@),
{
    let mut pairs: Vec<(Attribute, VertexFormat)> = Vec::new();
    let mut i: usize = 0;
    while i < sources.len()
        invariant
            i <= sources.len(),
            pairs@.len() == i,
            forall|j: int| 0 <= j < i ==> pairs@[j] == (sources@[j].kind, sources@[j].format),
        decreases sources.len() - i,
    {
        pairs.push((sources[i].kind, sources[i].format));
        i += 1;
    }
    assert(pairs@ =~= described(sources@));
    pairs
}

/// Turns one primitive into a populated mesh resource.
///
/// The indices are read first, then the attributes are resolved in
/// declaration order, the layout is classified and the attribute arrays are
/// packed. The first objection ends the load.
pub fn load_primitive(primitive: &Primitive, buffers: &Vec<Vec<u8>>) -> (loaded: Result<
    MeshResource,
    Error,
>)
    ensures
        match loaded {
            Ok(resource) => {
                &&& primitive_error(*primitive, buffers@).is_none()
                &&& holds_primitive(resource@, *primitive, buffers@)
            },
            Err(error) => primitive_error(*primitive, buffers@) == Some(error),
        },
{
    let assembly = Assembly::from_mode(primitive.mode);
    let indices = match primitive.indices {
        Some(accessor) => match read_indices(&accessor, buffers) {
            Ok(indices) => Some(indices),
            Err(error) => {
                return Err(error);
            },
        },
        None => None,
    };
    let sources = match resolve_attributes(primitive) {
        Ok(sources) => sources,
        Err(error) => {
            return Err(error);
        },
    };
    match classify_layout(primitive) {
        Err(error) => {
            return Err(error);
        },
        Ok(BufferLayout::Interleaved) => {
            return Err(Error::Unimplemented(Feature::InterleavedLayout));
        },
        Ok(BufferLayout::Separate) => {},
    }
    let count = if primitive.attributes.len() == 0 {
        0
    } else {
        primitive.attributes[primitive.attributes.len() - 1].1.count
    };
    let data = match assemble_separate(&sources, buffers, count) {
        Ok(data) => data,
        Err(error) => {
            return Err(error);
        },
    };
    let pairs = describe(&sources);
    let vertices = match VertexData::new(data, pairs, count) {
        Ok(vertices) => vertices,
        Err(error) => {
            // The packed buffer holds exactly `count` vertices, so this
            // branch is never taken.
            proof {
                assert(count * vertex_size(pairs@) == vertex_size(pairs@) * count)
                    by (nonlinear_arith);
                assert(false);
            }
            return Err(error);
        },
    };
    let mut resource = MeshResource::new();
    resource.update(indices, vertices);
    resource.change_assembly(assembly);
    Ok(resource)
}

/// What each primitive of the mesh has to object, in declaration order.
pub open spec fn primitive_errors(mesh: MeshEntry, buffers: Seq<Vec<u8>>) -> Seq<Option<Error>> {
    Seq::new(mesh.primitives@.len(), |p: int| primitive_error(mesh.primitives@[p], buffers))
}

/// What each mesh has to object: the first objection among its primitives.
pub open spec fn mesh_errors(meshes: Seq<MeshEntry>, buffers: Seq<Vec<u8>>) -> Seq<Option<Error>> {
    Seq::new(meshes.len(), |m: int| first_error(primitive_errors(meshes[m], buffers)))
}

/// The resources hold the geometry of the mesh's primitives, one resource
/// per primitive in declaration order.
pub open spec fn holds_mesh(
    resources: Seq<MeshResource>,
    mesh: MeshEntry,
    buffers: Seq<Vec<u8>>,
) -> bool {
    &&& resources.len() == mesh.primitives@.len()
    &&& forall|p: int|
        0 <= p < resources.len() ==> holds_primitive(
            (#[trigger] resources[p])@,
            mesh.primitives@[p],
            buffers,
        )
}

/// The resources hold the geometry of the meshes, mesh by mesh.
pub open spec fn holds_meshes(
    resources: Seq<Vec<MeshResource>>,
    meshes: Seq<MeshEntry>,
    buffers: Seq<Vec<u8>>,
) -> bool {
    &&& resources.len() == meshes.len()
    &&& forall|m: int|
        0 <= m < resources.len() ==> holds_mesh((#[trigger] resources[m])@, meshes[m], buffers)
}

/// Turns the primitives of one mesh into mesh resources, in declaration
/// order. The first primitive that cannot be loaded ends the load.
pub fn load_mesh(mesh: &MeshEntry, buffers: &Vec<Vec<u8>>) -> (loaded: Result<
    Vec<MeshResource>,
    Error,
>)
    ensures
        match loaded {
            Ok(resources) => {
                &&& first_error(primitive_errors(*mesh, buffers@)).is_none()
                &&& holds_mesh(resources@, *mesh, buffers@)
            },
            Err(error) => first_error(primitive_errors(*mesh, buffers@)) == Some(error),
        },
{
    let ghost steps = primitive_errors(*mesh, buffers@);
    let mut resources: Vec<MeshResource> = Vec::new();
    let mut p: usize = 0;
    while p < mesh.primitives.len()
        invariant
            p <= mesh.primitives.len(),
            steps == primitive_errors(*mesh, buffers@),
            forall|j: int| 0 <= j < p ==> steps[j].is_none(),
            resources@.len() == p,
            forall|j: int|
                0 <= j < p ==> holds_primitive(
                    (#[trigger] resources@[j])@,
                    mesh.primitives@[j],
                    buffers@,
                ),
        decreases mesh.primitives.len() - p,
    {
        match load_primitive(&mesh.primitives[p], buffers) {
            Ok(resource) => {
                resources.push(resource);
            },
            Err(error) => {
                proof {
                    lemma_first_error_at(steps, p as int);
                }
                return Err(error);
            },
        }
        p += 1;
    }
    proof {
        lemma_first_error_none(steps);
    }
    Ok(resources)
}

/// Turns every primitive of the asset into a mesh resource: meshes in
/// declaration order, and within a mesh its primitives in declaration order.
/// Nothing is returned unless every primitive loads.
pub fn build_mesh_resources(asset: &Asset, buffers: &Vec<Vec<u8>>) -> (built: Result<
    Vec<Vec<MeshResource>>,
    Error,
>)
    ensures
        match built {
            Ok(resources) => {
                &&& first_error(mesh_errors(asset.meshes@, buffers@)).is_none()
                &&& holds_meshes(resources@, asset.meshes@, buffers@)
            },
            Err(error) => first_error(mesh_errors(asset.meshes@, buffers@)) == Some(error),
        },
{
    let ghost steps = mesh_errors(asset.meshes@, buffers@);
    let mut resources: Vec<Vec<MeshResource>> = Vec::new();
    let mut m: usize = 0;
    while m < asset.meshes.len()
        invariant
            m <= asset.meshes.len(),
            steps == mesh_errors(asset.meshes@, buffers@),
            forall|j: int| 0 <= j < m ==> steps[j].is_none(),
            resources@.len() == m,
            forall|j: int|
                0 <= j < m ==> holds_mesh((#[trigger] resources@[j])@, asset.meshes@[j], buffers@),
        decreases asset.meshes.len() - m,
    {
        match load_mesh(&asset.meshes[m], buffers) {
            Ok(loaded) => {
                resources.push(loaded);
            },
            Err(error) => {
                proof {
                    lemma_first_error_at(steps, m as int);
                }
                return Err(error);
            },
        }
        m += 1;
    }
    proof {
        lemma_first_error_none(steps);
    }
    Ok(resources)
}

} // verus!
