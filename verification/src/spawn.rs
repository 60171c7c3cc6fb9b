//! Components become entities of the world: one new entity per mesh
//! resource and per image, which carries it.

use crate::asset::{Asset, MeshEntry};
use crate::entity::EntityId;
use crate::error::{first_error, Error};
use crate::image::Image;
use crate::loader::{build_mesh_resources, holds_primitive, mesh_errors};
use crate::mesh::MeshResource;
use crate::world::{
    attach_image, attach_mesh_resource, create_entity, has_registered_images,
    has_registered_mesh_resources, same_storages, world_entities, world_ids_sound, world_images,
    world_mesh_resources, world_meshes, world_registers_images, world_registers_mesh_resources,
};
use vstd::prelude::*;
use xecs::World;

verus! {

/// The two storages agree on whether the entity carries a component, and on
/// the component where it does.
pub open spec fn same_at<T>(before: Map<EntityId, T>, after: Map<EntityId, T>, id: EntityId) -> bool {
    &&& after.contains_key(id) <==> before.contains_key(id)
    &&& after.contains_key(id) ==> after[id] == before[id]
}

/// `after` is `before` with `values[i]` attached to entity `ids[i]`, in
/// order: entities that are not among `ids` carry what they carried, and
/// where the identifiers differ from each other, each carries its value.
pub open spec fn attached<T>(
    before: Map<EntityId, T>,
    after: Map<EntityId, T>,
    ids: Seq<EntityId>,
    values: Seq<T>,
) -> bool {
    &&& ids.len() == values.len()
    &&& forall|id: EntityId| !ids.contains(id) ==> same_at(before, after, id)
    &&& ids.no_duplicates() ==> forall|i: int|
        0 <= i < ids.len() ==> after.contains_key(#[trigger] ids[i]) && after[ids[i]] == values[i]
}

/// Attaching one more value extends what was attached.
pub proof fn lemma_attached_step<T>(
    before: Map<EntityId, T>,
    mid: Map<EntityId, T>,
    after: Map<EntityId, T>,
    ids: Seq<EntityId>,
    values: Seq<T>,
    id: EntityId,
    value: T,
)
    requires
        attached(before, mid, ids, values),
        after == mid.insert(id, value),
    ensures
        attached(before, after, ids.push(id), values.push(value)),
{
    let more = ids.push(id);
    let more_values = values.push(value);
    assert(more[ids.len() as int] == id);
    assert forall|e: EntityId| !more.contains(e) implies same_at(before, after, e) by {
        if ids.contains(e) {
            let i = choose|i: int| 0 <= i < ids.len() && ids[i] == e;
            assert(more[i] == e);
        }
        assert(same_at(before, mid, e));
    }
    if more.no_duplicates() {
        assert(ids.no_duplicates()) by {
            assert forall|i: int, j: int| 0 <= i < ids.len() && 0 <= j < ids.len() && i != j implies ids[i]
                != ids[j] by {
                assert(more[i] == ids[i] && more[j] == ids[j]);
            }
        }
        assert forall|i: int| 0 <= i < more.len() implies after.contains_key(#[trigger] more[i])
            && after[more[i]] == more_values[i] by {
            if i < ids.len() {
                assert(more[i] == ids[i]);
                assert(more[i] != more[ids.len() as int]);
            }
        }
    }
}

/// `after` is `before` with the entities `ids` added to the live entities,
/// and with the same storages. Where the identifiers of `before` are sound,
/// the new ones were not live, differ from each other, and the identifiers
/// of `after` are sound.
pub open spec fn entities_added(before: World, after: World, ids: Seq<EntityId>) -> bool {
    &&& world_entities(after) == world_entities(before).union(ids.to_set())
    &&& same_storages(before, after)
    &&& world_ids_sound(before) ==> {
        &&& ids.no_duplicates()
        &&& forall|i: int|
            0 <= i < ids.len() ==> !world_entities(before).contains(#[trigger] ids[i])
        &&& world_ids_sound(after)
    }
}

/// No entity added to an unchanged world.
pub proof fn lemma_entities_added_none(world: World)
    ensures
        entities_added(world, world, Seq::<EntityId>::empty()),
{
    assert(world_entities(world) =~= world_entities(world).union(
        Seq::<EntityId>::empty().to_set(),
    ));
}

/// One more entity extends what was added.
pub proof fn lemma_entities_added_step(
    before: World,
    mid: World,
    after: World,
    ids: Seq<EntityId>,
    id: EntityId,
)
    requires
        entities_added(before, mid, ids),
        world_entities(after) == world_entities(mid).insert(id),
        world_ids_sound(mid) ==> !world_entities(mid).contains(id) && world_ids_sound(after),
        same_storages(mid, after),
    ensures
        entities_added(before, after, ids.push(id)),
{
    let more = ids.push(id);
    assert(more[ids.len() as int] == id);
    assert(world_entities(after) =~= world_entities(before).union(more.to_set())) by {
        assert forall|e: EntityId| more.to_set().contains(e) <==> (ids.to_set().contains(e) || e
            == id) by {
            if ids.to_set().contains(e) {
                let i = choose|i: int| 0 <= i < ids.len() && ids[i] == e;
                assert(more[i] == e);
            }
        }
    }
    if world_ids_sound(before) {
        assert(!ids.contains(id)) by {
            if ids.contains(id) {
                let i = choose|i: int| 0 <= i < ids.len() && ids[i] == id;
                assert(ids.to_set().contains(ids[i]));
            }
        }
        assert(more.no_duplicates());
        assert forall|i: int| 0 <= i < more.len() implies !world_entities(before).contains(
            #[trigger] more[i],
        ) by {
            if i < ids.len() {
                assert(more[i] == ids[i]);
            }
        }
    }
}

/// The two worlds agree on whether the entity carries a mesh resource, and
/// on the resource where it does.
pub open spec fn same_resource_at(before: World, after: World, id: EntityId) -> bool {
    same_at(world_mesh_resources(before), world_mesh_resources(after), id)
}

/// `after` is `before` with one entity added per resource, on which the
/// resource was attached; mesh components and images are as they were.
pub open spec fn spawned(
    before: World,
    after: World,
    ids: Seq<EntityId>,
    resources: Seq<MeshResource>,
) -> bool {
    &&& entities_added(before, after, ids)
    &&& attached(world_mesh_resources(before), world_mesh_resources(after), ids, resources)
    &&& world_meshes(after) == world_meshes(before)
    &&& world_images(after) == world_images(before)
}

/// Creates one entity per resource, in order, each carrying its resource.
fn spawn_mesh(world: &mut World, resources: Vec<MeshResource>) -> (ids: Vec<EntityId>)
    requires
        world_registers_mesh_resources(*old(world)),
    ensures
        spawned(*old(world), *final(world), ids@, resources@),
{
    let ghost before = *world;
    let mut ids: Vec<EntityId> = Vec::new();
    proof {
        lemma_entities_added_none(before);
    }
    for resource in it: resources.into_iter()
        invariant
            it.seq() == resources@,
            world_registers_mesh_resources(before),
            spawned(before, *world, ids@, resources@.take(it.index() as int)),
    {
        let ghost mid = *world;
        let ghost done = ids@;
        let id = create_entity(world);
        attach_mesh_resource(world, id, resource);
        ids.push(id);
        proof {
            let i = it.index() as int;
            assert(resources@.take(i + 1) == resources@.take(i).push(resources@[i]));
            lemma_entities_added_step(before, mid, *world, done, id);
            lemma_attached_step(
                world_mesh_resources(before),
                world_mesh_resources(mid),
                world_mesh_resources(*world),
                done,
                resources@.take(i),
                id,
                resource,
            );
        }
    }
    proof {
        assert(resources@.take(resources@.len() as int) == resources@);
    }
    ids
}

/// `after` is `before` with one entity added per image, on which the image
/// was attached; mesh resources and mesh components are as they were.
pub open spec fn images_spawned(
    before: World,
    after: World,
    ids: Seq<EntityId>,
    images: Seq<Image>,
) -> bool {
    &&& entities_added(before, after, ids)
    &&& attached(world_images(before), world_images(after), ids, images)
    &&& world_mesh_resources(after) == world_mesh_resources(before)
    &&& world_meshes(after) == world_meshes(before)
}

/// Makes each decoded image an entity of the world that carries it, in
/// order, and hands back the identifiers in the same order.
pub fn spawn_images(world: &mut World, images: Vec<Image>) -> (ids: Vec<EntityId>)
    requires
        world_registers_images(*old(world)),
    ensures
        images_spawned(*old(world), *final(world), ids@, images@),
{
    let ghost before = *world;
    let mut ids: Vec<EntityId> = Vec::new();
    proof {
        lemma_entities_added_none(before);
    }
    for image in it: images.into_iter()
        invariant
            it.seq() == images@,
            world_registers_images(before),
            images_spawned(before, *world, ids@, images@.take(it.index() as int)),
    {
        let ghost mid = *world;
        let ghost done = ids@;
        let id = create_entity(world);
        attach_image(world, id, image);
        ids.push(id);
        proof {
            let i = it.index() as int;
            assert(images@.take(i + 1) == images@.take(i).push(images@[i]));
            lemma_entities_added_step(before, mid, *world, done, id);
            lemma_attached_step(
                world_images(before),
                world_images(mid),
                world_images(*world),
                done,
                images@.take(i),
                id,
                image,
            );
        }
    }
    proof {
        assert(images@.take(images@.len() as int) == images@);
    }
    ids
}

/// Makes the images entities of the world if the world has storage for
/// images. Without that storage nothing is done and `None` is returned.
pub fn try_spawn_images(world: &mut World, images: Vec<Image>) -> (ids: Option<Vec<EntityId>>)
    ensures
        ids.is_some() <==> world_registers_images(*old(world)),
        match ids {
            Some(ids) => images_spawned(*old(world), *final(world), ids@, images@),
            None => *final(world) == *old(world),
        },
{
    if has_registered_images(world) {
        Some(spawn_images(world, images))
    } else {
        None
    }
}

/// The identifier is one of `ids`.
pub open spec fn among(ids: Seq<Vec<EntityId>>, id: EntityId) -> bool {
    exists|m: int, p: int|
        0 <= m < ids.len() && 0 <= p < ids[m]@.len() && (#[trigger] ids[m]@[p]) == id
}

/// No identifier stands at two places of `ids`.
pub open spec fn pairwise_different(ids: Seq<Vec<EntityId>>) -> bool {
    forall|m: int, p: int, n: int, q: int|
        0 <= m < ids.len() && 0 <= p < ids[m]@.len() && 0 <= n < ids.len() && 0 <= q
            < ids[n]@.len() && (m != n || p != q) ==> (#[trigger] ids[m]@[p])
            != (#[trigger] ids[n]@[q])
}

/// `after` is `before` with the entities `ids` added to the live entities.
/// Entities that are not among them carry the mesh resource they carried;
/// mesh components, images and storages are as they were. Where the
/// identifiers of `before` are sound, the new ones were not live, no two of
/// them are the same, and the identifiers of `after` are sound.
pub open spec fn added(before: World, after: World, ids: Seq<Vec<EntityId>>) -> bool {
    &&& forall|id: EntityId|
        #![trigger world_entities(after).contains(id)]
        #![trigger among(ids, id)]
        world_entities(after).contains(id) <==> (world_entities(before).contains(id) || among(
            ids,
            id,
        ))
    &&& forall|id: EntityId| !among(ids, id) ==> same_resource_at(before, after, id)
    &&& world_meshes(after) == world_meshes(before)
    &&& world_images(after) == world_images(before)
    &&& same_storages(before, after)
    &&& world_ids_sound(before) ==> {
        &&& forall|m: int, p: int|
            0 <= m < ids.len() && 0 <= p < ids[m]@.len() ==> !world_entities(before).contains(
                #[trigger] ids[m]@[p],
            )
        &&& pairwise_different(ids)
        &&& world_ids_sound(after)
    }
}

/// `after` is `before` with one entity added per resource, group by group.
/// Where no two identifiers are the same, entity `ids[m][p]` carries
/// `resources[m][p]`.
pub open spec fn spawned_all(
    before: World,
    after: World,
    ids: Seq<Vec<EntityId>>,
    resources: Seq<Vec<MeshResource>>,
) -> bool {
    &&& ids.len() == resources.len()
    &&& forall|m: int| 0 <= m < ids.len() ==> (#[trigger] ids[m])@.len() == resources[m]@.len()
    &&& added(before, after, ids)
    &&& pairwise_different(ids) ==> forall|m: int, p: int|
        0 <= m < ids.len() && 0 <= p < ids[m]@.len() ==> world_mesh_resources(
            after,
        ).contains_key(#[trigger] ids[m]@[p]) && world_mesh_resources(after)[ids[m]@[p]]
            == resources[m]@[p]
}

/// One more group of spawned entities extends what was spawned.
proof fn lemma_spawned_all_step(
    before: World,
    mid: World,
    after: World,
    ids: Seq<Vec<EntityId>>,
    resources: Seq<Vec<MeshResource>>,
    new_ids: Vec<EntityId>,
    new_resources: Vec<MeshResource>,
)
    requires
        spawned_all(before, mid, ids, resources),
        spawned(mid, after, new_ids@, new_resources@),
    ensures
        spawned_all(before, after, ids.push(new_ids), resources.push(new_resources)),
{
    let more = ids.push(new_ids);
    let more_resources = resources.push(new_resources);
    let last = ids.len() as int;
    assert(more[last] == new_ids);
    assert forall|id: EntityId| among(more, id) <==> (among(ids, id) || new_ids@.contains(id)) by {
        if among(ids, id) {
            let (m, p) = choose|m: int, p: int|
                0 <= m < ids.len() && 0 <= p < ids[m]@.len() && (#[trigger] ids[m]@[p]) == id;
            assert(more[m]@[p] == id);
        }
        if new_ids@.contains(id) {
            let q = choose|q: int| 0 <= q < new_ids@.len() && new_ids@[q] == id;
            assert(more[last]@[q] == id);
        }
        if among(more, id) {
            let (m, p) = choose|m: int, p: int|
                0 <= m < more.len() && 0 <= p < more[m]@.len() && (#[trigger] more[m]@[p]) == id;
            if m < last {
                assert(ids[m]@[p] == id);
            } else {
                assert(new_ids@[p] == id);
            }
        }
    }
    assert forall|m: int| 0 <= m < more.len() implies (#[trigger] more[m])@.len()
        == more_resources[m]@.len() by {
        if m < last {
            assert(more[m] == ids[m]);
        }
    }
    assert forall|id: EntityId|
        world_entities(after).contains(id) <==> (world_entities(before).contains(id) || among(
            more,
            id,
        )) by {
        assert(new_ids@.to_set().contains(id) <==> new_ids@.contains(id));
        assert(world_entities(mid).contains(id) <==> (world_entities(before).contains(id)
            || among(ids, id)));
        assert(among(more, id) <==> (among(ids, id) || new_ids@.contains(id)));
    }
    assert forall|id: EntityId| !among(more, id) implies same_resource_at(before, after, id) by {
        assert(among(more, id) <==> (among(ids, id) || new_ids@.contains(id)));
        assert(same_resource_at(before, mid, id));
        assert(same_at(world_mesh_resources(mid), world_mesh_resources(after), id));
    }
    if world_ids_sound(before) {
        // An identifier spawned earlier is live in `mid`, a new one was not.
        assert forall|m: int, p: int| 0 <= m < more.len() && 0 <= p < more[m]@.len() implies !world_entities(
            before,
        ).contains(#[trigger] more[m]@[p]) by {
            if m < last {
                assert(more[m]@[p] == ids[m]@[p]);
            } else {
                let id = new_ids@[p];
                assert(!world_entities(mid).contains(id));
                assert(world_entities(mid).contains(id) <==> (world_entities(before).contains(id)
                    || among(ids, id)));
            }
        }
        assert forall|m: int, p: int, n: int, q: int|
            0 <= m < more.len() && 0 <= p < more[m]@.len() && 0 <= n < more.len() && 0 <= q
                < more[n]@.len() && (m != n || p != q) implies (#[trigger] more[m]@[p])
            != (#[trigger] more[n]@[q]) by {
            if m < last && n < last {
                assert(more[m]@[p] == ids[m]@[p]);
                assert(more[n]@[q] == ids[n]@[q]);
            } else if m < last {
                assert(more[m]@[p] == ids[m]@[p]);
                assert(among(ids, ids[m]@[p]));
                assert(!world_entities(mid).contains(new_ids@[q]));
            } else if n < last {
                assert(more[n]@[q] == ids[n]@[q]);
                assert(among(ids, ids[n]@[q]));
                assert(!world_entities(mid).contains(new_ids@[p]));
            }
        }
    }
    if pairwise_different(more) {
        assert(pairwise_different(ids)) by {
            assert forall|m: int, p: int, n: int, q: int|
                0 <= m < ids.len() && 0 <= p < ids[m]@.len() && 0 <= n < ids.len() && 0 <= q
                    < ids[n]@.len() && (m != n || p != q) implies (#[trigger] ids[m]@[p])
                != (#[trigger] ids[n]@[q]) by {
                assert(more[m]@[p] == ids[m]@[p]);
                assert(more[n]@[q] == ids[n]@[q]);
            }
        }
        assert(new_ids@.no_duplicates()) by {
            assert forall|p: int, q: int|
                0 <= p < new_ids@.len() && 0 <= q < new_ids@.len() && p != q implies new_ids@[p]
                != new_ids@[q] by {
                assert(more[last]@[p] != more[last]@[q]);
            }
        }
        assert forall|m: int, p: int| 0 <= m < more.len() && 0 <= p < more[m]@.len() implies world_mesh_resources(
            after,
        ).contains_key(#[trigger] more[m]@[p]) && world_mesh_resources(after)[more[m]@[p]]
            == more_resources[m]@[p] by {
            if m < last {
                let id = ids[m]@[p];
                assert(more[m]@[p] == id);
                if new_ids@.contains(id) {
                    let q = choose|q: int| 0 <= q < new_ids@.len() && new_ids@[q] == id;
                    assert(more[m]@[p] != more[last]@[q]);
                }
                assert(same_at(world_mesh_resources(mid), world_mesh_resources(after), id));
            }
        }
    }
}

/// Creates one entity per resource, group by group and in order within a
/// group, each entity carrying its resource.
pub(crate) fn spawn_meshes(world: &mut World, resources: Vec<Vec<MeshResource>>) -> (ids: Vec<
    Vec<EntityId>,
>)
    requires
        world_registers_mesh_resources(*old(world)),
    ensures
        spawned_all(*old(world), *final(world), ids@, resources@),
{
    let ghost before = *world;
    let mut ids: Vec<Vec<EntityId>> = Vec::new();
    for group in it: resources.into_iter()
        invariant
            it.seq() == resources@,
            world_registers_mesh_resources(before),
            spawned_all(before, *world, ids@, resources@.take(it.index() as int)),
    {
        let ghost mid = *world;
        let ghost done = ids@;
        let new_ids = spawn_mesh(world, group);
        proof {
            let i = it.index() as int;
            assert(resources@.take(i + 1) == resources@.take(i).push(resources@[i]));
            lemma_spawned_all_step(before, mid, *world, done, resources@.take(i), new_ids, group);
        }
        ids.push(new_ids);
    }
    proof {
        assert(resources@.take(resources@.len() as int) == resources@);
    }
    ids
}

/// The world holds the geometry of the meshes: `after` is `before` with one
/// entity added per primitive, and where no two identifiers are the same,
/// entity `ids[m][p]` carries a mesh resource that holds primitive `p` of
/// mesh `m`.
pub open spec fn meshes_loaded(
    before: World,
    after: World,
    ids: Seq<Vec<EntityId>>,
    meshes: Seq<MeshEntry>,
    buffers: Seq<Vec<u8>>,
) -> bool {
    &&& ids.len() == meshes.len()
    &&& forall|m: int|
        0 <= m < ids.len() ==> (#[trigger] ids[m])@.len() == meshes[m].primitives@.len()
    &&& added(before, after, ids)
    &&& pairwise_different(ids) ==> forall|m: int, p: int|
        0 <= m < ids.len() && 0 <= p < ids[m]@.len() ==> world_mesh_resources(
            after,
        ).contains_key(#[trigger] ids[m]@[p]) && holds_primitive(
            world_mesh_resources(after)[ids[m]@[p]]@,
            meshes[m].primitives@[p],
            buffers,
        )
}

/// Loads every primitive of the asset and makes each an entity of the world
/// that carries the mesh resource, meshes in declaration order and within a
/// mesh its primitives in declaration order. The identifiers come back in
/// the same arrangement. On an error the world is left as it was.
///
/// The identifiers come from the world. They are new and differ from each
/// other where the world's identifiers are sound; a world that removed an
/// entity twice may hand out an identifier that is in use.
pub fn load_meshes(world: &mut World, asset: &Asset, buffers: &Vec<Vec<u8>>) -> (loaded: Result<
    Vec<Vec<EntityId>>,
    Error,
>)
    requires
        world_registers_mesh_resources(*old(world)),
    ensures
        match loaded {
            Ok(ids) => {
                &&& first_error(mesh_errors(asset.meshes@, buffers@)).is_none()
                &&& meshes_loaded(*old(world), *final(world), ids@, asset.meshes@, buffers@)
            },
            Err(error) => {
                &&& first_error(mesh_errors(asset.meshes@, buffers@)) == Some(error)
                &&& *final(world) == *old(world)
            },
        },
{
    let resources = match build_mesh_resources(asset, buffers) {
        Ok(resources) => resources,
        Err(error) => {
            return Err(error);
        },
    };
    let ids = spawn_meshes(world, resources);
    Ok(ids)
}

/// Loads the meshes into the world if the world has storage for mesh
/// resources. Without that storage nothing is done and `None` is returned.
pub fn try_load_meshes(world: &mut World, asset: &Asset, buffers: &Vec<Vec<u8>>) -> (loaded:
    Option<Result<Vec<Vec<EntityId>>, Error>>)
    ensures
        loaded.is_some() <==> world_registers_mesh_resources(*old(world)),
        match loaded {
            Some(Ok(ids)) => {
                &&& first_error(mesh_errors(asset.meshes@, buffers@)).is_none()
                &&& meshes_loaded(*old(world), *final(world), ids@, asset.meshes@, buffers@)
            },
            Some(Err(error)) => {
                &&& first_error(mesh_errors(asset.meshes@, buffers@)) == Some(error)
                &&& *final(world) == *old(world)
            },
            None => *final(world) == *old(world),
        },
{
    if has_registered_mesh_resources(world) {
        Some(load_meshes(world, asset, buffers))
    } else {
        None
    }
}

} // verus!
