//! Preparing a world: the storages that a scene is loaded into.

use crate::world::{
    has_registered_images, has_registered_mesh_resources, has_registered_meshes,
    register_images, register_mesh_resources, register_meshes, same_content, world_is_ready,
    world_registers_images,
};
use vstd::prelude::*;
use xecs::World;

verus! {

/// Registers the storages for mesh resources, mesh components and images
/// that the world lacks. A storage that is registered already is left as it
/// is, and so are the entities and their components.
pub fn init(world: &mut World)
    ensures
        world_is_ready(*final(world)),
        world_registers_images(*final(world)),
        same_content(*old(world), *final(world)),
{
    if !has_registered_mesh_resources(world) {
        register_mesh_resources(world);
    }
    if !has_registered_meshes(world) {
        register_meshes(world);
    }
    if !has_registered_images(world) {
        register_images(world);
    }
}

} // verus!
