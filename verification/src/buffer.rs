//! Loaded buffers and the byte ranges that buffer views select in them.

use crate::asset::{Asset, BufferSource, BufferView};
use crate::error::{Error, Feature};
use crate::path::{resolve, resolved};
use vstd::prelude::*;

verus! {

/// The view names a loaded buffer and its byte range lies inside it.
pub open spec fn view_in_bounds(view: BufferView, buffers: Seq<Vec<u8>>) -> bool {
    &&& view.buffer < buffers.len()
    &&& view.offset + view.length <= buffers[view.buffer as int]@.len()
}

/// The bytes that the view selects.
pub open spec fn view_bytes(view: BufferView, buffers: Seq<Vec<u8>>) -> Seq<u8> {
    buffers[view.buffer as int]@.subrange(view.offset as int, view.offset + view.length)
}

/// Decides whether the view's byte range lies inside a loaded buffer.
pub fn check_view(view: &BufferView, buffers: &Vec<Vec<u8>>) -> (inside: bool)
    ensures
        inside == view_in_bounds(*view, buffers@),
{
    if view.buffer >= buffers.len() {
        return false;
    }
    let available = buffers[view.buffer].len();
    match view.offset.checked_add(view.length) {
        Some(end) => end <= available,
        None => false,
    }
}

/// The buffer is one that is stored in the asset file itself.
pub open spec fn is_embedded(source: BufferSource) -> bool {
    source is Bin
}

/// `path` is the file that the buffer's bytes are read from.
pub open spec fn is_buffer_path(path: String, source: BufferSource, asset_path: Seq<char>) -> bool {
    match source {
        BufferSource::Bin => false,
        BufferSource::Uri(reference) => path@ == resolved(asset_path, reference@),
    }
}

/// Lists, for each buffer of the asset in declaration order, the file to
/// read its bytes from. References are resolved against the directory of the
/// asset file. A buffer embedded in the asset file fails the listing.
pub fn buffer_paths(asset: &Asset, asset_path: &str) -> (paths: Result<Vec<String>, Error>)
    ensures
        match paths {
            Ok(paths) => {
                &&& paths@.len() == asset.buffers@.len()
                &&& forall|i: int|
                    0 <= i < paths@.len() ==> is_buffer_path(
                        #[trigger] paths@[i],
                        asset.buffers@[i],
                        asset_path@,
                    )
            },
            Err(error) => {
                &&& error == Error::Unimplemented(Feature::EmbeddedBuffer)
                &&& exists|i: int|
                    0 <= i < asset.buffers@.len() && is_embedded(#[trigger] asset.buffers@[i])
            },
        },
{
    let mut paths: Vec<String> = Vec::new();
    let mut i: usize = 0;
    while i < asset.buffers.len()
        invariant
            i <= asset.buffers.len(),
            paths@.len() == i,
            forall|j: int|
                0 <= j < i ==> is_buffer_path(#[trigger] paths@[j], asset.buffers@[j], asset_path@),
        decreases asset.buffers.len() - i,
    {
        match &asset.buffers[i] {
            BufferSource::Bin => {
                assert(is_embedded(asset.buffers@[i as int]));
                return Err(Error::Unimplemented(Feature::EmbeddedBuffer));
            },
            BufferSource::Uri(reference) => {
                paths.push(resolve(asset_path, reference.as_str()));
            },
        }
        i += 1;
    }
    Ok(paths)
}

} // verus!
