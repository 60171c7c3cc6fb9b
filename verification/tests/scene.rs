use elikar_scene::asset::{
    Accessor, Asset, AssetNode, BufferView, MeshEntry, Mode, Primitive, Projection, Semantic,
    TransformKind,
};
use elikar_scene::entity::EntityId;
use elikar_scene::error::{Error, Feature};
use elikar_scene::format::{DataType, Dimensions, VertexFormat};
use elikar_scene::loader::{build_mesh_resources, load_mesh};
use elikar_scene::mesh::{Assembly, Attribute, Indices, Mesh, MeshResource};
use elikar_scene::plan::{plan_nodes, Placement};
use elikar_scene::scene::{load_scene, try_load_scene, SceneEntity};
use elikar_scene::setup::init;
use elikar_scene::image::{ColorType, Image};
use elikar_scene::spawn::{load_meshes, spawn_images, try_load_meshes, try_spawn_images};
use std::num::NonZeroUsize;
use xecs::World;

fn world() -> World {
    let mut world = World::new();
    world.register::<MeshResource>();
    world.register::<Mesh>();
    world
}

fn outside(id: EntityId) -> NonZeroUsize {
    NonZeroUsize::new(id.get()).unwrap()
}

fn positions(count: usize, offset: usize) -> (Semantic, Accessor) {
    (
        Semantic::Positions,
        Accessor {
            data_type: DataType::F32,
            dimensions: Dimensions::Vec3,
            count,
            view: Some(BufferView { buffer: 0, offset, length: count * 12, stride: None }),
        },
    )
}

fn triangle(mode: Mode, offset: usize) -> Primitive {
    Primitive { mode, indices: None, attributes: vec![positions(3, offset)] }
}

fn node(mesh: Option<usize>, camera: Option<usize>) -> AssetNode {
    AssetNode { mesh, camera, transform: TransformKind::Decomposed }
}

fn asset(meshes: Vec<MeshEntry>, cameras: Vec<Projection>, nodes: Vec<AssetNode>) -> Asset {
    Asset {
        buffers: Vec::new(),
        images: Vec::new(),
        textures: Vec::new(),
        meshes,
        cameras,
        nodes,
    }
}

fn bytes(len: usize) -> Vec<Vec<u8>> {
    vec![(0..len).map(|i| i as u8).collect()]
}

const FULL_CAMERA: Projection = Projection::Perspective { has_aspect_ratio: true, has_zfar: true };

#[test]
fn loads_one_triangle_and_its_instance() {
    let a = asset(
        vec![MeshEntry { primitives: vec![triangle(Mode::Triangles, 0)] }],
        Vec::new(),
        vec![node(Some(0), None)],
    );
    let buffers = bytes(36);
    let mut world = world();
    let scene = load_scene(&mut world, &a, &buffers).unwrap();

    assert_eq!(scene.resources.len(), 1);
    assert_eq!(scene.resources[0].len(), 1);
    let resource_id = scene.resources[0][0];
    assert_eq!(
        scene.entities,
        vec![SceneEntity::MeshInstance {
            entity: scene.entities[0].id(),
            node: 0,
            resource: resource_id,
        }]
    );
    assert_ne!(scene.entities[0].id(), resource_id);
    assert!(world.exist(outside(resource_id)));
    assert!(world.exist(outside(scene.entities[0].id())));
    assert_eq!(world.components_read::<MeshResource>().unwrap().count(), 1);
    assert_eq!(world.components_read::<Mesh>().unwrap().count(), 1);
    assert_eq!(
        world
            .entity_component_read::<Mesh>(outside(scene.entities[0].id()))
            .unwrap()
            .mesh_resource_id(),
        resource_id
    );
    assert!(world.entity_component_read::<Mesh>(outside(resource_id)).is_none());

    let mut resource = world
        .entity_component_write::<MeshResource>(outside(resource_id))
        .unwrap();
    assert_eq!(resource.assembly(), Assembly::Triangles);
    let (indices, vertices) = resource.fetch().unwrap();
    assert!(indices.is_none());
    assert_eq!(vertices.count(), 3);
    assert_eq!(vertices.data().len(), 36);
    assert_eq!(vertices.data(), buffers[0].as_slice());
    assert_eq!(
        vertices.attributes(),
        [(Attribute::Positions, VertexFormat::Float32x3)].as_slice()
    );
    assert!(resource.fetch().is_none());
}

#[test]
fn creates_resources_in_declaration_order() {
    let a = asset(
        vec![
            MeshEntry {
                primitives: vec![triangle(Mode::Points, 0), triangle(Mode::Lines, 36)],
            },
            MeshEntry { primitives: Vec::new() },
            MeshEntry { primitives: vec![triangle(Mode::TriangleFan, 72)] },
        ],
        Vec::new(),
        Vec::new(),
    );
    let buffers = bytes(108);
    let mut world = world();
    let before = world.create_entity().into_id();
    let ids = load_meshes(&mut world, &a, &buffers).unwrap();
    assert_eq!(ids.len(), 3);
    assert_eq!(ids[0].len(), 2);
    assert_eq!(ids[1].len(), 0);
    assert_eq!(ids[2].len(), 1);
    let flat = [ids[0][0], ids[0][1], ids[2][0]];
    for (i, id) in flat.iter().enumerate() {
        assert_ne!(outside(*id), before);
        assert!(world.exist(outside(*id)));
        for other in &flat[i + 1..] {
            assert_ne!(id, other);
        }
    }
    let expected = [
        (Assembly::Points, 0usize),
        (Assembly::Lines, 36),
        (Assembly::TriangleFan, 72),
    ];
    for (id, (assembly, offset)) in flat.iter().zip(expected) {
        let mut resource = world
            .entity_component_write::<MeshResource>(outside(*id))
            .unwrap();
        assert_eq!(resource.assembly(), assembly);
        let (_, vertices) = resource.fetch().unwrap();
        assert_eq!(vertices.data(), &buffers[0][offset..offset + 36]);
    }
    assert_eq!(world.components_read::<MeshResource>().unwrap().count(), 3);
}

#[test]
fn places_one_instance_per_primitive_and_one_entity_per_camera() {
    let a = asset(
        vec![
            MeshEntry { primitives: vec![triangle(Mode::Triangles, 0)] },
            MeshEntry {
                primitives: vec![triangle(Mode::Triangles, 0), triangle(Mode::Lines, 12)],
            },
        ],
        vec![FULL_CAMERA],
        vec![
            node(Some(1), None),
            node(None, None),
            node(None, Some(0)),
            node(Some(0), Some(0)),
            node(Some(1), None),
        ],
    );
    assert_eq!(
        plan_nodes(&a).unwrap(),
        vec![
            Placement::Instance { node: 0, mesh: 1, primitive: 0 },
            Placement::Instance { node: 0, mesh: 1, primitive: 1 },
            Placement::Camera { node: 2, camera: 0 },
            Placement::Instance { node: 3, mesh: 0, primitive: 0 },
            Placement::Instance { node: 4, mesh: 1, primitive: 0 },
            Placement::Instance { node: 4, mesh: 1, primitive: 1 },
        ]
    );
    let buffers = bytes(48);
    let mut world = world();
    let scene = load_scene(&mut world, &a, &buffers).unwrap();
    let r = &scene.resources;
    let e: Vec<EntityId> = scene.entities.iter().map(|entity| entity.id()).collect();
    assert_eq!(
        scene.entities,
        vec![
            SceneEntity::MeshInstance { entity: e[0], node: 0, resource: r[1][0] },
            SceneEntity::MeshInstance { entity: e[1], node: 0, resource: r[1][1] },
            SceneEntity::Camera { entity: e[2], node: 2, camera: 0 },
            SceneEntity::MeshInstance { entity: e[3], node: 3, resource: r[0][0] },
            SceneEntity::MeshInstance { entity: e[4], node: 4, resource: r[1][0] },
            SceneEntity::MeshInstance { entity: e[5], node: 4, resource: r[1][1] },
        ]
    );
    let mut all: Vec<EntityId> = vec![r[0][0], r[1][0], r[1][1]];
    all.extend(e.iter().copied());
    for (i, id) in all.iter().enumerate() {
        assert!(world.exist(outside(*id)));
        for other in &all[i + 1..] {
            assert_ne!(id, other);
        }
    }
    let stored = world.components_read::<MeshResource>().unwrap();
    assert_eq!(stored.count(), 3);
    for id in &e {
        assert!(!stored.exist(outside(*id)));
    }
    let instances = world.components_read::<Mesh>().unwrap();
    assert_eq!(instances.count(), 5);
    for entity in &scene.entities {
        match *entity {
            SceneEntity::MeshInstance { entity, resource, .. } => {
                assert_eq!(
                    instances.get(outside(entity)).unwrap().mesh_resource_id(),
                    resource
                );
            }
            SceneEntity::Camera { entity, .. } => {
                assert!(!instances.exist(outside(entity)));
            }
        }
    }
}

#[test]
fn node_errors_come_in_node_order() {
    let mesh = vec![MeshEntry { primitives: Vec::new() }];
    let matrix = AssetNode { mesh: Some(0), camera: None, transform: TransformKind::Matrix };
    let matrix_camera =
        AssetNode { mesh: None, camera: Some(0), transform: TransformKind::Matrix };
    let idle_matrix = AssetNode { mesh: None, camera: None, transform: TransformKind::Matrix };

    let a = asset(mesh.clone(), vec![FULL_CAMERA], vec![idle_matrix, node(Some(0), Some(9))]);
    assert!(plan_nodes(&a).unwrap().is_empty());

    let a = asset(mesh.clone(), vec![FULL_CAMERA], vec![node(Some(0), None), matrix]);
    assert!(matches!(
        plan_nodes(&a),
        Err(Error::Unimplemented(Feature::MatrixTransform))
    ));
    let a = asset(mesh.clone(), vec![FULL_CAMERA], vec![matrix_camera]);
    assert!(matches!(
        plan_nodes(&a),
        Err(Error::Unimplemented(Feature::MatrixTransform))
    ));
    let a = asset(mesh.clone(), Vec::new(), vec![node(Some(1), None), matrix]);
    assert!(matches!(plan_nodes(&a), Err(Error::MalformedAsset)));
    let a = asset(mesh.clone(), vec![FULL_CAMERA], vec![node(None, Some(1))]);
    assert!(matches!(plan_nodes(&a), Err(Error::MalformedAsset)));
    let a = asset(
        mesh.clone(),
        vec![Projection::Orthographic, FULL_CAMERA],
        vec![node(None, Some(1)), node(None, Some(0)), matrix],
    );
    assert!(matches!(
        plan_nodes(&a),
        Err(Error::Unimplemented(Feature::OrthographicCamera))
    ));
    let orthographic_matrix =
        AssetNode { mesh: None, camera: Some(0), transform: TransformKind::Matrix };
    let a = asset(mesh.clone(), vec![Projection::Orthographic], vec![orthographic_matrix]);
    assert!(matches!(
        plan_nodes(&a),
        Err(Error::Unimplemented(Feature::OrthographicCamera))
    ));
}

#[test]
fn perspective_camera_needs_aspect_ratio_and_far_plane() {
    let incomplete = [
        Projection::Perspective { has_aspect_ratio: false, has_zfar: true },
        Projection::Perspective { has_aspect_ratio: true, has_zfar: false },
        Projection::Perspective { has_aspect_ratio: false, has_zfar: false },
    ];
    for camera in incomplete {
        let a = asset(Vec::new(), vec![camera], vec![node(None, Some(0))]);
        assert!(matches!(plan_nodes(&a), Err(Error::IncompleteCamera)));
    }
    let a = asset(Vec::new(), vec![FULL_CAMERA], vec![node(None, Some(0))]);
    assert_eq!(plan_nodes(&a).unwrap(), vec![Placement::Camera { node: 0, camera: 0 }]);
    let mut world = world();
    let scene = load_scene(&mut world, &a, &Vec::new()).unwrap();
    assert!(scene.resources.is_empty());
    assert_eq!(
        scene.entities,
        vec![SceneEntity::Camera { entity: scene.entities[0].id(), node: 0, camera: 0 }]
    );
    assert!(world.exist(outside(scene.entities[0].id())));
}

#[test]
fn failed_load_leaves_the_world_alone() {
    let buffers = bytes(36);
    let mut world = world();
    let first = world.create_entity().into_id();

    let bad_node = asset(
        vec![MeshEntry { primitives: vec![triangle(Mode::Triangles, 0)] }],
        vec![Projection::Orthographic],
        vec![node(Some(0), None), node(None, Some(0))],
    );
    assert!(matches!(
        load_scene(&mut world, &bad_node, &buffers),
        Err(Error::Unimplemented(Feature::OrthographicCamera))
    ));
    let bad_mesh = asset(
        vec![MeshEntry {
            primitives: vec![triangle(Mode::Triangles, 0), triangle(Mode::Triangles, 1)],
        }],
        vec![Projection::Orthographic],
        vec![node(None, Some(0))],
    );
    assert!(matches!(
        load_scene(&mut world, &bad_mesh, &buffers),
        Err(Error::CorruptBufferView)
    ));
    assert!(matches!(
        load_meshes(&mut world, &bad_mesh, &buffers),
        Err(Error::CorruptBufferView)
    ));
    assert_eq!(world.components_read::<MeshResource>().unwrap().count(), 0);
    assert_eq!(world.components_read::<Mesh>().unwrap().count(), 0);
    let next = world.create_entity().into_id();
    assert_eq!(next.get(), first.get() + 1);
}

#[test]
fn mesh_errors_come_before_node_errors_and_in_declaration_order() {
    let buffers = bytes(36);
    let sparse = Primitive {
        mode: Mode::Triangles,
        indices: None,
        attributes: vec![(
            Semantic::Positions,
            Accessor {
                data_type: DataType::F32,
                dimensions: Dimensions::Vec3,
                count: 3,
                view: None,
            },
        )],
    };
    let joints = Primitive {
        mode: Mode::Triangles,
        indices: None,
        attributes: vec![(Semantic::Joints(4), positions(3, 0).1)],
    };
    let meshes = vec![
        MeshEntry { primitives: vec![triangle(Mode::Triangles, 0)] },
        MeshEntry { primitives: vec![triangle(Mode::Triangles, 0), sparse, joints.clone()] },
        MeshEntry { primitives: vec![joints] },
    ];
    assert!(matches!(
        load_mesh(&meshes[1], &buffers),
        Err(Error::UnsupportedSparseStorage)
    ));
    assert!(matches!(
        load_mesh(&meshes[2], &buffers),
        Err(Error::UnsupportedSemantic(Semantic::Joints(4)))
    ));
    assert_eq!(load_mesh(&meshes[0], &buffers).unwrap().len(), 1);
    let a = asset(meshes, Vec::new(), vec![node(Some(5), None)]);
    assert!(matches!(
        build_mesh_resources(&a, &buffers),
        Err(Error::UnsupportedSparseStorage)
    ));
    let mut world = world();
    assert!(matches!(
        load_scene(&mut world, &a, &buffers),
        Err(Error::UnsupportedSparseStorage)
    ));
}

#[test]
fn builds_resources_without_a_world() {
    let a = asset(
        vec![
            MeshEntry { primitives: Vec::new() },
            MeshEntry {
                primitives: vec![Primitive {
                    mode: Mode::TriangleStrip,
                    indices: Some(Accessor {
                        data_type: DataType::U32,
                        dimensions: Dimensions::Scalar,
                        count: 1,
                        view: Some(BufferView { buffer: 0, offset: 4, length: 4, stride: None }),
                    }),
                    attributes: Vec::new(),
                }],
            },
        ],
        Vec::new(),
        Vec::new(),
    );
    let mut built = build_mesh_resources(&a, &bytes(8)).unwrap();
    assert_eq!(built.len(), 2);
    assert!(built[0].is_empty());
    assert_eq!(built[1].len(), 1);
    assert_eq!(built[1][0].assembly(), Assembly::TriangleStrip);
    let (indices, vertices) = built[1][0].fetch().unwrap();
    assert!(matches!(indices, Some(Indices::U32(ref v)) if v == &vec![0x07060504]));
    assert_eq!(vertices.count(), 0);
    assert!(vertices.data().is_empty());
}

#[test]
fn world_without_mesh_resource_storage_is_not_touched() {
    let a = asset(
        vec![MeshEntry { primitives: vec![triangle(Mode::Triangles, 0)] }],
        Vec::new(),
        vec![node(Some(0), None)],
    );
    let buffers = bytes(36);
    let mut bare = World::new();
    assert!(try_load_scene(&mut bare, &a, &buffers).is_none());
    assert!(try_load_meshes(&mut bare, &a, &buffers).is_none());
    assert_eq!(bare.create_entity().into_id().get(), 1);

    let mut half = World::new();
    half.register::<MeshResource>();
    assert!(try_load_scene(&mut half, &a, &buffers).is_none());
    assert_eq!(half.components_read::<MeshResource>().unwrap().count(), 0);
    assert_eq!(half.create_entity().into_id().get(), 1);
    assert!(try_load_meshes(&mut half, &a, &buffers).unwrap().is_ok());

    let mut other_half = World::new();
    other_half.register::<Mesh>();
    assert!(try_load_scene(&mut other_half, &a, &buffers).is_none());
    assert!(try_load_meshes(&mut other_half, &a, &buffers).is_none());

    let mut ready = world();
    let scene = try_load_scene(&mut ready, &a, &buffers).unwrap().unwrap();
    assert_eq!(scene.resources[0].len(), 1);
    assert_eq!(scene.entities.len(), 1);
    let ids = try_load_meshes(&mut ready, &a, &buffers).unwrap().unwrap();
    assert_ne!(ids[0][0], scene.resources[0][0]);
    assert!(matches!(
        try_load_scene(&mut ready, &a, &bytes(35)),
        Some(Err(Error::CorruptBufferView))
    ));
}

#[test]
fn recycled_identifiers_are_handed_out_again() {
    let a = asset(
        vec![MeshEntry { primitives: vec![triangle(Mode::Triangles, 0)] }],
        Vec::new(),
        Vec::new(),
    );
    let mut world = world();
    let first = world.create_entity().into_id();
    let second = world.create_entity().into_id();
    world.remove_entity(first);
    let ids = load_meshes(&mut world, &a, &bytes(36)).unwrap();
    assert_eq!(outside(ids[0][0]), first);
    assert_ne!(outside(ids[0][0]), second);
    assert!(world
        .entity_component_read::<MeshResource>(outside(ids[0][0]))
        .unwrap()
        .has());
}

fn image(width: u32, fill: u8) -> Image {
    Image {
        width,
        height: 1,
        color_type: ColorType::RGB,
        data: vec![fill; 3 * width as usize],
    }
}

#[test]
fn images_become_entities_in_order() {
    let mut world = World::new();
    world.register::<Image>();
    let before = world.create_entity().into_id();
    let ids = spawn_images(&mut world, vec![image(1, 10), image(2, 20), image(3, 30)]);
    assert_eq!(ids.len(), 3);
    for (i, id) in ids.iter().enumerate() {
        assert_ne!(outside(*id), before);
        assert!(world.exist(outside(*id)));
        for other in &ids[i + 1..] {
            assert_ne!(id, other);
        }
        let stored = world.entity_component_read::<Image>(outside(*id)).unwrap();
        assert_eq!(stored.width, i as u32 + 1);
        assert_eq!(stored.data, vec![10 * (i as u8 + 1); 3 * (i + 1)]);
    }
    assert_eq!(world.components_read::<Image>().unwrap().count(), 3);
    assert!(spawn_images(&mut world, Vec::new()).is_empty());
}

#[test]
fn images_need_their_storage() {
    let mut bare = World::new();
    assert!(try_spawn_images(&mut bare, vec![image(1, 1)]).is_none());
    assert_eq!(bare.create_entity().into_id().get(), 1);
    let mut ready = World::new();
    ready.register::<Image>();
    let ids = try_spawn_images(&mut ready, vec![image(1, 1)]).unwrap();
    assert_eq!(ids.len(), 1);
    assert!(ready.entity_component_read::<Image>(outside(ids[0])).is_some());
}

#[test]
fn world_with_broken_identifiers_hands_out_one_twice() {
    let a = asset(
        vec![MeshEntry {
            primitives: vec![triangle(Mode::Points, 0), triangle(Mode::Lines, 36)],
        }],
        Vec::new(),
        Vec::new(),
    );
    let mut world = world();
    let first = world.create_entity().into_id();
    world.create_entity();
    world.remove_entity(first);
    world.remove_entity(first);
    let ids = load_meshes(&mut world, &a, &bytes(72)).unwrap();
    assert_eq!(ids.len(), 1);
    assert_eq!(ids[0].len(), 2);
    assert_eq!(ids[0][0], ids[0][1]);
    assert_eq!(world.components_read::<MeshResource>().unwrap().count(), 1);
    let kept = world
        .entity_component_read::<MeshResource>(outside(ids[0][1]))
        .unwrap();
    assert_eq!(kept.assembly(), Assembly::Lines);
}

#[test]
fn init_registers_what_is_missing() {
    let mut bare = World::new();
    let first = bare.create_entity().into_id();
    init(&mut bare);
    assert!(bare.has_registered::<MeshResource>());
    assert!(bare.has_registered::<Mesh>());
    assert!(bare.has_registered::<Image>());
    assert!(bare.exist(first));
    assert_eq!(bare.create_entity().into_id().get(), first.get() + 1);

    let mut half = World::new();
    half.register::<Mesh>();
    let kept = half
        .create_entity()
        .attach(Mesh::from_resource(EntityId::new(9).unwrap()))
        .into_id();
    init(&mut half);
    init(&mut half);
    assert!(half.has_registered::<MeshResource>());
    assert!(half.has_registered::<Image>());
    assert_eq!(
        half.entity_component_read::<Mesh>(kept).unwrap().mesh_resource_id(),
        EntityId::new(9).unwrap()
    );
    assert_eq!(half.components_read::<MeshResource>().unwrap().count(), 0);

    let a = asset(
        vec![MeshEntry { primitives: vec![triangle(Mode::Triangles, 0)] }],
        Vec::new(),
        vec![node(Some(0), None)],
    );
    assert!(try_load_scene(&mut bare, &a, &bytes(36)).unwrap().is_ok());
}
