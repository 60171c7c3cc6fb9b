//! Loading a scene: the meshes of the asset become entities that carry mesh
//! resources, and the nodes become mesh instances and cameras.

use crate::asset::Asset;
use crate::entity::EntityId;
use crate::error::{first_error, lemma_no_first_error, Error};
use crate::loader::{build_mesh_resources, holds_primitive, mesh_errors};
use crate::mesh::Mesh;
use crate::plan::{
    lemma_placements_in_range, node_error, node_errors, placements, plan_in_range, plan_nodes,
    Placement,
};
use crate::spawn::{
    among, entities_added, lemma_entities_added_none, lemma_entities_added_step, meshes_loaded,
    pairwise_different, same_at, spawn_meshes,
};
use crate::world::{
    attach_mesh, create_entity, has_registered_mesh_resources, has_registered_meshes,
    world_entities, world_ids_sound, world_images, world_is_ready, world_mesh_resources,
    world_meshes, world_registers_meshes,
};
use vstd::prelude::*;
use xecs::World;

verus! {

/// An entity that was created for a node.
#[derive(Debug, Clone, Copy, PartialEq, Eq, Structural)]
pub enum SceneEntity {
    /// A mesh instance that refers to the entity carrying its mesh resource.
    MeshInstance { entity: EntityId, node: usize, resource: EntityId },
    /// A camera.
    Camera { entity: EntityId, node: usize, camera: usize },
}

impl SceneEntity {
    /// The identifier of the created entity.
    pub open spec fn spec_id(self) -> EntityId {
        match self {
            SceneEntity::MeshInstance { entity, .. } => entity,
            SceneEntity::Camera { entity, .. } => entity,
        }
    }

    /// The identifier of the created entity.
    #[verifier::when_used_as_spec(spec_id)]
    pub fn id(self) -> (id: EntityId)
        ensures
            id == self.spec_id(),
    {
        match self {
            SceneEntity::MeshInstance { entity, .. } => entity,
            SceneEntity::Camera { entity, .. } => entity,
        }
    }

    /// The entity is what the placement asks for, given the identifiers of
    /// the mesh resources.
    pub open spec fn realizes(self, placement: Placement, resources: Seq<Vec<EntityId>>) -> bool {
        match placement {
            Placement::Instance { node, mesh, primitive } => {
                &&& 0 <= mesh < resources.len()
                &&& 0 <= primitive < resources[mesh as int]@.len()
                &&& self == SceneEntity::MeshInstance {
                    entity: self.spec_id(),
                    node,
                    resource: resources[mesh as int]@[primitive as int],
                }
            },
            Placement::Camera { node, camera } => self == SceneEntity::Camera {
                entity: self.spec_id(),
                node,
                camera,
            },
        }
    }
}

/// What a load hands back: the identifiers of the mesh resources, arranged
/// as the asset arranges its primitives, and the entities created for the
/// nodes, in node order.
#[derive(Debug)]
pub struct Scene {
    pub resources: Vec<Vec<EntityId>>,
    pub entities: Vec<SceneEntity>,
}

/// The two worlds agree on whether the entity carries a mesh component, and
/// on the component where it does.
pub open spec fn same_mesh_at(before: World, after: World, id: EntityId) -> bool {
    same_at(world_meshes(before), world_meshes(after), id)
}

/// The identifiers of the entities, in order.
pub open spec fn entity_ids(entities: Seq<SceneEntity>) -> Seq<EntityId> {
    Seq::new(entities.len(), |i: int| entities[i].spec_id())
}

/// In world `after` the entity carries what it should: a mesh instance the
/// mesh component that refers to its resource, a camera whatever mesh
/// component it had in `before`.
pub open spec fn carries_mesh(before: World, after: World, entity: SceneEntity) -> bool {
    match entity {
        SceneEntity::MeshInstance { entity, resource, .. } => {
            &&& world_meshes(after).contains_key(entity)
            &&& world_meshes(after)[entity] == Mesh::spec_from_resource(resource)
        },
        SceneEntity::Camera { entity, .. } => same_mesh_at(before, after, entity),
    }
}

/// Entities that are none of `entities` carry the mesh component they
/// carried; where the identifiers of `entities` differ from each other,
/// each of them carries what it should.
pub open spec fn meshes_carried(before: World, after: World, entities: Seq<SceneEntity>) -> bool {
    &&& forall|id: EntityId|
        !entity_ids(entities).contains(id) ==> same_mesh_at(before, after, id)
    &&& entity_ids(entities).no_duplicates() ==> forall|i: int|
        0 <= i < entities.len() ==> carries_mesh(before, after, #[trigger] entities[i])
}

/// `after` is `before` with the entities added, each mesh instance with its
/// mesh component; mesh resources and images are as they were.
pub open spec fn created(before: World, after: World, entities: Seq<SceneEntity>) -> bool {
    &&& entities_added(before, after, entity_ids(entities))
    &&& meshes_carried(before, after, entities)
    &&& world_mesh_resources(after) == world_mesh_resources(before)
    &&& world_images(after) == world_images(before)
}

/// The nodes were placed: one entity per placement, in order, each what its
/// placement asks for.
pub open spec fn placed(
    before: World,
    after: World,
    entities: Seq<SceneEntity>,
    plan: Seq<Placement>,
    resources: Seq<Vec<EntityId>>,
) -> bool {
    &&& entities.len() == plan.len()
    &&& forall|i: int|
        0 <= i < entities.len() ==> (#[trigger] entities[i]).realizes(plan[i], resources)
    &&& created(before, after, entities)
}

/// One more entity, with its mesh component where it is a mesh instance,
/// extends what the entities carry.
proof fn lemma_meshes_carried_step(
    before: World,
    mid: World,
    after: World,
    entities: Seq<SceneEntity>,
    made: SceneEntity,
)
    requires
        meshes_carried(before, mid, entities),
        match made {
            SceneEntity::MeshInstance { entity, resource, .. } => world_meshes(after)
                == world_meshes(mid).insert(entity, Mesh::spec_from_resource(resource)),
            SceneEntity::Camera { .. } => world_meshes(after) == world_meshes(mid),
        },
    ensures
        meshes_carried(before, after, entities.push(made)),
{
    let id = made.spec_id();
    let done = entity_ids(entities);
    let all = entities.push(made);
    let ids = entity_ids(all);
    assert(ids =~= done.push(id));
    assert(ids[done.len() as int] == id);
    assert forall|e: EntityId| !ids.contains(e) implies same_mesh_at(before, after, e) by {
        if done.contains(e) {
            let j = choose|j: int| 0 <= j < done.len() && done[j] == e;
            assert(ids[j] == e);
        }
        assert(same_mesh_at(before, mid, e));
    }
    if ids.no_duplicates() {
        assert(done.no_duplicates()) by {
            assert forall|i: int, j: int|
                0 <= i < done.len() && 0 <= j < done.len() && i != j implies done[i] != done[j] by {
                assert(ids[i] == done[i] && ids[j] == done[j]);
            }
        }
        assert(!done.contains(id)) by {
            if done.contains(id) {
                let j = choose|j: int| 0 <= j < done.len() && done[j] == id;
                assert(ids[j] == ids[done.len() as int]);
            }
        }
        assert(same_mesh_at(before, mid, id));
        assert forall|j: int| 0 <= j < all.len() implies carries_mesh(
            before,
            after,
            #[trigger] all[j],
        ) by {
            if j < entities.len() {
                assert(all[j] == entities[j]);
                assert(carries_mesh(before, mid, entities[j]));
                assert(done[j] == entities[j].spec_id());
                assert(done.contains(done[j]));
            }
        }
    }
}

/// Creates one entity per placement, in order. A mesh instance gets the
/// mesh component that refers to the entity of its mesh resource.
fn place(world: &mut World, plan: &Vec<Placement>, resources: &Vec<Vec<EntityId>>) -> (entities:
    Vec<SceneEntity>)
    requires
        world_registers_meshes(*old(world)),
        plan_in_range(plan@, resources@),
    ensures
        placed(*old(world), *final(world), entities@, plan@, resources@),
{
    let ghost before = *world;
    let mut entities: Vec<SceneEntity> = Vec::new();
    proof {
        lemma_entities_added_none(before);
        assert(entity_ids(entities@) =~= Seq::<EntityId>::empty());
    }
    let mut i: usize = 0;
    while i < plan.len()
        invariant
            i <= plan.len(),
            world_registers_meshes(before),
            plan_in_range(plan@, resources@),
            placed(before, *world, entities@, plan@.take(i as int), resources@),
        decreases plan.len() - i,
    {
        let ghost mid = *world;
        let ghost earlier = entities@;
        let entity = create_entity(world);
        let made = match plan[i] {
            Placement::Instance { node, mesh, primitive } => {
                let resource = resources[mesh][primitive];
                attach_mesh(world, entity, Mesh::from_resource(resource));
                SceneEntity::MeshInstance { entity, node, resource }
            },
            Placement::Camera { node, camera } => SceneEntity::Camera { entity, node, camera },
        };
        entities.push(made);
        proof {
            assert(entity_ids(entities@) =~= entity_ids(earlier).push(entity));
            lemma_entities_added_step(before, mid, *world, entity_ids(earlier), entity);
            lemma_meshes_carried_step(before, mid, *world, earlier, made);
            assert forall|j: int| 0 <= j < entities@.len() implies (#[trigger] entities@[j]).realizes(
                plan@.take(i + 1)[j],
                resources@,
            ) by {
                if j < i {
                    assert(entities@[j] == earlier[j]);
                    assert(plan@.take(i + 1)[j] == plan@.take(i as int)[j]);
                }
            }
        }
        i += 1;
    }
    proof {
        assert(plan@.take(plan@.len() as int) == plan@);
    }
    entities
}

/// Why the scene cannot be loaded, if it cannot: what the first primitive at
/// fault has to object, in declaration order; where all primitives load,
/// what the first node at fault has to object.
pub open spec fn scene_error(asset: Asset, buffers: Seq<Vec<u8>>) -> Option<Error> {
    if first_error(mesh_errors(asset.meshes@, buffers)).is_some() {
        first_error(mesh_errors(asset.meshes@, buffers))
    } else {
        first_error(node_errors(asset))
    }
}

/// The scene was loaded into the world: first the meshes, one entity per
/// primitive that carries its mesh resource, then the nodes, one entity per
/// placement in node order. What this says of a world whose identifiers are
/// sound is spelled out by [`lemma_scene_loaded`].
pub open spec fn scene_loaded(
    before: World,
    after: World,
    scene: Scene,
    asset: Asset,
    buffers: Seq<Vec<u8>>,
) -> bool {
    exists|mid: World|
        {
            &&& #[trigger] meshes_loaded(before, mid, scene.resources@, asset.meshes@, buffers)
            &&& placed(
                mid,
                after,
                scene.entities@,
                placements(asset, asset.nodes@.len()),
                scene.resources@,
            )
        }
}

/// After a load into a world whose identifiers are sound, the world holds
/// the geometry of every primitive under the identifier that the scene gives
/// for it, on an entity that was not live before and is none of the entities
/// created for the nodes; and every mesh instance carries the mesh component
/// that refers to its resource.
pub proof fn lemma_scene_loaded(
    before: World,
    after: World,
    scene: Scene,
    asset: Asset,
    buffers: Seq<Vec<u8>>,
)
    requires
        world_ids_sound(before),
        scene_loaded(before, after, scene, asset, buffers),
    ensures
        world_ids_sound(after),
        scene.resources@.len() == asset.meshes@.len(),
        forall|m: int|
            0 <= m < scene.resources@.len() ==> (#[trigger] scene.resources@[m])@.len()
                == asset.meshes@[m].primitives@.len(),
        pairwise_different(scene.resources@),
        entity_ids(scene.entities@).no_duplicates(),
        forall|m: int, p: int|
            0 <= m < scene.resources@.len() && 0 <= p < scene.resources@[m]@.len() ==> {
                let id = #[trigger] scene.resources@[m]@[p];
                &&& !world_entities(before).contains(id)
                &&& world_entities(after).contains(id)
                &&& !entity_ids(scene.entities@).contains(id)
                &&& world_mesh_resources(after).contains_key(id)
                &&& holds_primitive(
                    world_mesh_resources(after)[id]@,
                    asset.meshes@[m].primitives@[p],
                    buffers,
                )
            },
        scene.entities@.len() == placements(asset, asset.nodes@.len()).len(),
        forall|i: int|
            0 <= i < scene.entities@.len() ==> {
                let entity = #[trigger] scene.entities@[i];
                &&& entity.realizes(placements(asset, asset.nodes@.len())[i], scene.resources@)
                &&& !world_entities(before).contains(entity.spec_id())
                &&& world_entities(after).contains(entity.spec_id())
                &&& entity matches SceneEntity::MeshInstance { entity: id, resource, .. }
                    ==> world_meshes(after).contains_key(id) && world_meshes(after)[id]
                    == Mesh::spec_from_resource(resource)
            },
{
    let mid = choose|mid: World|
        {
            &&& #[trigger] meshes_loaded(before, mid, scene.resources@, asset.meshes@, buffers)
            &&& placed(
                mid,
                after,
                scene.entities@,
                placements(asset, asset.nodes@.len()),
                scene.resources@,
            )
        };
    let ids = entity_ids(scene.entities@);
    assert(world_ids_sound(mid));
    assert forall|m: int, p: int|
        0 <= m < scene.resources@.len() && 0 <= p < scene.resources@[m]@.len() implies {
        let id = #[trigger] scene.resources@[m]@[p];
        &&& !world_entities(before).contains(id)
        &&& world_entities(after).contains(id)
        &&& !ids.contains(id)
        &&& world_mesh_resources(after).contains_key(id)
        &&& holds_primitive(
            world_mesh_resources(after)[id]@,
            asset.meshes@[m].primitives@[p],
            buffers,
        )
    } by {
        let id = scene.resources@[m]@[p];
        assert(among(scene.resources@, id));
        assert(world_entities(mid).contains(id));
        if ids.contains(id) {
            let i = choose|i: int| 0 <= i < ids.len() && ids[i] == id;
            assert(!world_entities(mid).contains(ids[i]));
        }
    }
    assert forall|i: int| 0 <= i < scene.entities@.len() implies {
        let entity = #[trigger] scene.entities@[i];
        &&& entity.realizes(placements(asset, asset.nodes@.len())[i], scene.resources@)
        &&& !world_entities(before).contains(entity.spec_id())
        &&& world_entities(after).contains(entity.spec_id())
        &&& entity matches SceneEntity::MeshInstance { entity: id, resource, .. }
            ==> world_meshes(after).contains_key(id) && world_meshes(after)[id]
            == Mesh::spec_from_resource(resource)
    } by {
        let entity = scene.entities@[i];
        assert(ids[i] == entity.spec_id());
        assert(!world_entities(mid).contains(ids[i]));
        assert(ids.to_set().contains(ids[i]));
        assert(world_entities(mid).contains(ids[i]) <==> (world_entities(before).contains(ids[i])
            || among(scene.resources@, ids[i])));
        assert(carries_mesh(mid, after, entity));
    }
}

/// Loads the scene that the asset describes into the world.
///
/// Every primitive and every node is judged before the world is touched, so
/// on an error the world is left as it was. Then each primitive becomes an
/// entity that carries its mesh resource, and each node that refers to a
/// mesh or a camera gets its entities: one mesh instance per primitive of its
/// mesh, or one camera.
///
/// The identifiers come from the world. They are new and differ from each
/// other where the world's identifiers are sound; a world that removed an
/// entity twice may hand out an identifier that is in use.
pub fn load_scene(world: &mut World, asset: &Asset, buffers: &Vec<Vec<u8>>) -> (loaded: Result<
    Scene,
    Error,
>)
    requires
        world_is_ready(*old(world)),
    ensures
        match loaded {
            Ok(scene) => {
                &&& scene_error(*asset, buffers@).is_none()
                &&& scene_loaded(*old(world), *final(world), scene, *asset, buffers@)
            },
            Err(error) => {
                &&& scene_error(*asset, buffers@) == Some(error)
                &&& *final(world) == *old(world)
            },
        },
{
    let built = match build_mesh_resources(asset, buffers) {
        Ok(built) => built,
        Err(error) => {
            return Err(error);
        },
    };
    let plan = match plan_nodes(asset) {
        Ok(plan) => plan,
        Err(error) => {
            return Err(error);
        },
    };
    let ghost before = *world;
    let resources = spawn_meshes(world, built);
    let ghost mid = *world;
    proof {
        assert forall|n: int| 0 <= n < asset.nodes@.len() implies node_error(
            asset.nodes@[n],
            *asset,
        ).is_none() by {
            lemma_no_first_error(node_errors(*asset), n);
        }
        lemma_placements_in_range(*asset, asset.nodes@.len(), resources@);
    }
    let entities = place(world, &plan, &resources);
    let scene = Scene { resources, entities };
    proof {
        assert(meshes_loaded(before, mid, scene.resources@, asset.meshes@, buffers@));
    }
    Ok(scene)
}

/// Loads the scene into the world if the world has storage for mesh
/// resources and for mesh components. Without them nothing is done and
/// `None` is returned.
pub fn try_load_scene(world: &mut World, asset: &Asset, buffers: &Vec<Vec<u8>>) -> (loaded:
    Option<Result<Scene, Error>>)
    ensures
        loaded.is_some() <==> world_is_ready(*old(world)),
        match loaded {
            Some(Ok(scene)) => {
                &&& scene_error(*asset, buffers@).is_none()
                &&& scene_loaded(*old(world), *final(world), scene, *asset, buffers@)
            },
            Some(Err(error)) => {
                &&& scene_error(*asset, buffers@) == Some(error)
                &&& *final(world) == *old(world)
            },
            None => *final(world) == *old(world),
        },
{
    if has_registered_mesh_resources(world) && has_registered_meshes(world) {
        Some(load_scene(world, asset, buffers))
    } else {
        None
    }
}

} // verus!
