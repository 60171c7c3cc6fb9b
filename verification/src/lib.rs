//! Scene import: turns the structural description of a 3D asset (buffers,
//! accessors, primitives, nodes, cameras) into mesh resources and entities.
//!
//! The pipeline, leaf to root:
//! - [`format`] maps element descriptions to vertex formats;
//! - [`buffer`] and [`path`] say which files hold the buffers and which byte
//!   ranges buffer views select;
//! - [`layout`] classifies how a primitive's attribute data lies in memory;
//! - [`indices`] and [`assemble`] read indices and pack vertex data;
//! - [`loader`] turns primitives into mesh resources;
//! - [`setup`], [`plan`], [`spawn`] and [`scene`] prepare an `xecs` world and
//!   create the entities of a scene in it, through the calls listed in
//!   [`world`].

pub mod assemble;
pub mod asset;
pub mod buffer;
pub mod entity;
pub mod error;
pub mod format;
pub mod image;
pub mod indices;
pub mod layout;
pub mod loader;
pub mod mesh;
pub mod mesh_data;
pub mod node;
pub mod path;
pub mod plan;
pub mod scene;
pub mod setup;
pub mod spawn;
pub mod texture;
pub mod transform;
pub mod world;

pub use image::Image;
pub use mesh::Mesh;
