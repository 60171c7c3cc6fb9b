//! Texture sampling modes, and the check of the textures an asset declares.

use crate::asset::{Asset, TextureEntry};
use crate::entity::EntityId;
use crate::error::Error;
use vstd::prelude::*;

verus! {

/// Filter used when a texture is magnified.
#[derive(Debug, Clone, Copy, PartialEq, Eq, Hash, Structural)]
pub enum MagFilter {
    Nearest,
    Linear,
}

/// Filter used when a texture is minified.
#[derive(Debug, Clone, Copy, PartialEq, Eq, Hash, Structural)]
pub enum MinFilter {
    Nearest,
    Linear,
    NearestMipmapNearest,
    LinearMipmapNearest,
    NearestMipmapLinear,
    LinearMipmapLinear,
}

/// What happens to texture coordinates outside the unit square.
#[derive(Debug, Clone, Copy, PartialEq, Eq, Hash, Structural)]
pub enum Wrap {
    ClampToEdge,
    Repeat,
    MirroredRepeat,
}

/// Every texture refers to one of `count` images.
pub open spec fn textures_in_range(textures: Seq<TextureEntry>, count: nat) -> bool {
    forall|i: int| 0 <= i < textures.len() ==> (#[trigger] textures[i]).source < count
}

/// Checks that every texture of the asset refers to a loaded image. No
/// texture entity is created, so the list that comes back is empty.
pub fn load_textures(asset: &Asset, images: &Vec<EntityId>) -> (textures: Result<
    Vec<EntityId>,
    Error,
>)
    ensures
        match textures {
            Ok(textures) => {
                &&& textures_in_range(asset.textures@, images@.len())
                &&& textures@.len() == 0
            },
            Err(error) => {
                &&& error == Error::MalformedAsset
                &&& !textures_in_range(asset.textures@, images@.len())
            },
        },
{
    let mut i: usize = 0;
    while i < asset.textures.len()
        invariant
            i <= asset.textures.len(),
            forall|j: int| 0 <= j < i ==> (#[trigger] asset.textures@[j]).source < images@.len(),
        decreases asset.textures.len() - i,
    {
        if asset.textures[i].source >= images.len() {
            return Err(Error::MalformedAsset);
        }
        i += 1;
    }
    Ok(Vec::new())
}

} // verus!
