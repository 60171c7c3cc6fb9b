//! The entity store: what the importer relies on of `xecs::World`.
//!
//! The names below stand for parts of the world's state as the source of
//! `xecs` holds them; the wrappers say what the calls do to those parts.

use crate::entity::EntityId;
use crate::image::Image;
use crate::mesh::{Mesh, MeshResource};
use vstd::prelude::*;
use xecs::World;

verus! {

/// `xecs::World`, the store that holds entities and their components.
#[verifier::external_type_specification]
#[verifier::external_body]
pub struct ExWorld(xecs::World);

/// The live entities of the world: the identifiers in the list of entities
/// that its entity manager keeps. (This is not what `World::exist` reports,
/// which can still be true of an entity that was removed.)
pub uninterp spec fn world_entities(world: World) -> Set<EntityId>;

/// The identifiers that the world takes for existing: those that have a
/// flag in the entity manager which says "in use". These are the ones that
/// `World::exist` reports, and `World::attach_component` asks no more of an
/// entity than to be one of them.
pub uninterp spec fn world_known(world: World) -> Set<EntityId>;

/// The mesh resources of the world, by entity: the content of the storage
/// registered for mesh resources, empty where none is registered.
pub uninterp spec fn world_mesh_resources(world: World) -> Map<EntityId, MeshResource>;

/// The mesh components of the world, by entity: the content of the storage
/// registered for mesh components, empty where none is registered.
pub uninterp spec fn world_meshes(world: World) -> Map<EntityId, Mesh>;

/// The images of the world, by entity: the content of the storage
/// registered for images, empty where none is registered.
pub uninterp spec fn world_images(world: World) -> Map<EntityId, Image>;

/// Whether the world has a storage registered for mesh resources.
pub uninterp spec fn world_registers_mesh_resources(world: World) -> bool;

/// Whether the world has a storage registered for mesh components.
pub uninterp spec fn world_registers_meshes(world: World) -> bool;

/// Whether the world has a storage registered for images.
pub uninterp spec fn world_registers_images(world: World) -> bool;

/// The entity manager's chain of free identifiers is sound: it ends, and no
/// live entity stands on it. The chain starts at the flag of identifier
/// zero and runs through the flags of the removed identifiers. Removing an
/// entity that was removed before can make it loop or lead to a live
/// entity, and the world then hands out identifiers that are in use.
pub uninterp spec fn world_ids_sound(world: World) -> bool;

/// The world has the storages that a scene is loaded into.
pub open spec fn world_is_ready(world: World) -> bool {
    world_registers_mesh_resources(world) && world_registers_meshes(world)
}

/// The two worlds have the same storages registered.
pub open spec fn same_storages(before: World, after: World) -> bool {
    &&& world_registers_mesh_resources(after) == world_registers_mesh_resources(before)
    &&& world_registers_meshes(after) == world_registers_meshes(before)
    &&& world_registers_images(after) == world_registers_images(before)
}

/// The two worlds have the same entities, the same components and
/// identifiers that are as sound.
pub open spec fn same_content(before: World, after: World) -> bool {
    &&& world_entities(after) == world_entities(before)
    &&& world_known(after) == world_known(before)
    &&& world_mesh_resources(after) == world_mesh_resources(before)
    &&& world_meshes(after) == world_meshes(before)
    &&& world_images(after) == world_images(before)
    &&& world_ids_sound(after) == world_ids_sound(before)
}

/// `World::register` for mesh resources. The call panics where the storage
/// is registered already; otherwise it adds an empty storage and changes
/// nothing else.
#[verifier::external_body]
pub(crate) fn register_mesh_resources(world: &mut World)
    requires
        !world_registers_mesh_resources(*old(world)),
    ensures
        world_registers_mesh_resources(*final(world)),
        world_registers_meshes(*final(world)) == world_registers_meshes(*old(world)),
        world_registers_images(*final(world)) == world_registers_images(*old(world)),
        same_content(*old(world), *final(world)),
{
    world.register::<MeshResource>();
}

/// `World::register` for mesh components. The call panics where the storage
/// is registered already; otherwise it adds an empty storage and changes
/// nothing else.
#[verifier::external_body]
pub(crate) fn register_meshes(world: &mut World)
    requires
        !world_registers_meshes(*old(world)),
    ensures
        world_registers_meshes(*final(world)),
        world_registers_mesh_resources(*final(world)) == world_registers_mesh_resources(
            *old(world),
        ),
        world_registers_images(*final(world)) == world_registers_images(*old(world)),
        same_content(*old(world), *final(world)),
{
    world.register::<Mesh>();
}

/// `World::register` for images. The call panics where the storage is
/// registered already; otherwise it adds an empty storage and changes
/// nothing else.
#[verifier::external_body]
pub(crate) fn register_images(world: &mut World)
    requires
        !world_registers_images(*old(world)),
    ensures
        world_registers_images(*final(world)),
        world_registers_mesh_resources(*final(world)) == world_registers_mesh_resources(
            *old(world),
        ),
        world_registers_meshes(*final(world)) == world_registers_meshes(*old(world)),
        same_content(*old(world), *final(world)),
{
    world.register::<Image>();
}

/// `World::has_registered` for mesh resources: whether the component type
/// has been registered, which only `World::register` changes.
#[verifier::external_body]
pub(crate) fn has_registered_mesh_resources(world: &World) -> (registered: bool)
    ensures
        registered == world_registers_mesh_resources(*world),
{
    world.has_registered::<MeshResource>()
}

/// `World::has_registered` for mesh components: whether the component type
/// has been registered, which only `World::register` changes.
#[verifier::external_body]
pub(crate) fn has_registered_meshes(world: &World) -> (registered: bool)
    ensures
        registered == world_registers_meshes(*world),
{
    world.has_registered::<Mesh>()
}

/// `World::has_registered` for images: whether the component type has been
/// registered, which only `World::register` changes.
#[verifier::external_body]
pub(crate) fn has_registered_images(world: &World) -> (registered: bool)
    ensures
        registered == world_registers_images(*world),
{
    world.has_registered::<Image>()
}

/// `World::create_entity` followed by `Entity::into_id`. The entity manager
/// takes the head of its chain of free identifiers, or the next unused
/// number where the chain is empty, marks it as in use and appends it to
/// the live entities.
/// Where the chain is sound that identifier is not live before the call and
/// the chain stays sound. Components and registered storages are not
/// touched.
#[verifier::external_body]
pub(crate) fn create_entity(world: &mut World) -> (id: EntityId)
    ensures
        world_ids_sound(*old(world)) ==> !world_entities(*old(world)).contains(id),
        world_ids_sound(*old(world)) ==> world_ids_sound(*final(world)),
        world_entities(*final(world)) == world_entities(*old(world)).insert(id),
        world_known(*final(world)) == world_known(*old(world)).insert(id),
        world_mesh_resources(*final(world)) == world_mesh_resources(*old(world)),
        world_meshes(*final(world)) == world_meshes(*old(world)),
        world_images(*final(world)) == world_images(*old(world)),
        same_storages(*old(world), *final(world)),
{
    EntityId { raw: world.create_entity().into_id().get() }
}

/// `World::attach_component` for a mesh resource. The call panics where the
/// component type is not registered or the world does not know the entity;
/// otherwise the resource is stored under the entity's identifier,
/// replacing one stored there before, and nothing else changes.
#[verifier::external_body]
pub(crate) fn attach_mesh_resource(world: &mut World, id: EntityId, resource: MeshResource)
    requires
        world_registers_mesh_resources(*old(world)),
        world_known(*old(world)).contains(id),
    ensures
        world_entities(*final(world)) == world_entities(*old(world)),
        world_known(*final(world)) == world_known(*old(world)),
        world_mesh_resources(*final(world)) == world_mesh_resources(*old(world)).insert(
            id,
            resource,
        ),
        world_meshes(*final(world)) == world_meshes(*old(world)),
        world_images(*final(world)) == world_images(*old(world)),
        same_storages(*old(world), *final(world)),
        world_ids_sound(*final(world)) == world_ids_sound(*old(world)),
{
    world.attach_component(std::num::NonZeroUsize::new(id.raw).unwrap(), resource);
}

/// `World::attach_component` for a mesh component. The call panics where the
/// component type is not registered or the world does not know the entity;
/// otherwise the component is stored under the entity's identifier,
/// replacing one stored there before, and nothing else changes.
#[verifier::external_body]
pub(crate) fn attach_mesh(world: &mut World, id: EntityId, mesh: Mesh)
    requires
        world_registers_meshes(*old(world)),
        world_known(*old(world)).contains(id),
    ensures
        world_entities(*final(world)) == world_entities(*old(world)),
        world_known(*final(world)) == world_known(*old(world)),
        world_mesh_resources(*final(world)) == world_mesh_resources(*old(world)),
        world_meshes(*final(world)) == world_meshes(*old(world)).insert(id, mesh),
        world_images(*final(world)) == world_images(*old(world)),
        same_storages(*old(world), *final(world)),
        world_ids_sound(*final(world)) == world_ids_sound(*old(world)),
{
    world.attach_component(std::num::NonZeroUsize::new(id.raw).unwrap(), mesh);
}

/// `World::attach_component` for an image. The call panics where the
/// component type is not registered or the world does not know the entity;
/// otherwise the image is stored under the entity's identifier, replacing
/// one stored there before, and nothing else changes.
#[verifier::external_body]
pub(crate) fn attach_image(world: &mut World, id: EntityId, image: Image)
    requires
        world_registers_images(*old(world)),
        world_known(*old(world)).contains(id),
    ensures
        world_entities(*final(world)) == world_entities(*old(world)),
        world_known(*final(world)) == world_known(*old(world)),
        world_mesh_resources(*final(world)) == world_mesh_resources(*old(world)),
        world_meshes(*final(world)) == world_meshes(*old(world)),
        world_images(*final(world)) == world_images(*old(world)).insert(id, image),
        same_storages(*old(world), *final(world)),
        world_ids_sound(*final(world)) == world_ids_sound(*old(world)),
{
    world.attach_component(std::num::NonZeroUsize::new(id.raw).unwrap(), image);
}

} // verus!
