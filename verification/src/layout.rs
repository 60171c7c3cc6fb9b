//! Classifying how a primitive's attribute data lies in memory.

use crate::asset::{Accessor, Primitive, Semantic};
use crate::error::Error;
use vstd::prelude::*;

verus! {

/// Memory layout of the attribute data of one primitive.
#[derive(Debug, Clone, Copy, PartialEq, Eq, Structural)]
pub enum BufferLayout {
    /// Every attribute has a contiguous array of its own.
    Separate,
    /// The attributes share strided memory.
    Interleaved,
}

/// The attribute has no buffer view behind it.
pub open spec fn is_sparse(attribute: (Semantic, Accessor)) -> bool {
    attribute.1.view.is_none()
}

/// The attribute's view declares a stride.
pub open spec fn is_strided(attribute: (Semantic, Accessor)) -> bool {
    match attribute.1.view {
        Some(view) => view.stride.is_some(),
        None => false,
    }
}

/// The layout of the attributes, or why they have none: sparse storage is
/// rejected first; then no stride at all means separate arrays, a stride on
/// every view means interleaved memory, and a mix is rejected.
pub open spec fn layout_of(attributes: Seq<(Semantic, Accessor)>) -> Result<BufferLayout, Error> {
    if exists|i: int| 0 <= i < attributes.len() && is_sparse(#[trigger] attributes[i]) {
        Err(Error::UnsupportedSparseStorage)
    } else if forall|i: int| 0 <= i < attributes.len() ==> !is_strided(#[trigger] attributes[i]) {
        Ok(BufferLayout::Separate)
    } else if forall|i: int| 0 <= i < attributes.len() ==> is_strided(#[trigger] attributes[i]) {
        Ok(BufferLayout::Interleaved)
    } else {
        Err(Error::UnsupportedBufferLayout)
    }
}

/// Classifies the memory layout of a primitive's attribute data.
pub fn classify_layout(primitive: &Primitive) -> (layout: Result<BufferLayout, Error>)
    ensures
        layout == layout_of(primitive.attributes@),
{
    let mut strided: usize = 0;
    let mut i: usize = 0;
    while i < primitive.attributes.len()
        invariant
            i <= primitive.attributes.len(),
            strided <= i,
            forall|j: int| 0 <= j < i ==> !is_sparse(#[trigger] primitive.attributes@[j]),
            strided == 0 <==> forall|j: int| 0 <= j < i ==> !is_strided(#[trigger] primitive.attributes@[j]),
            strided == i <==> forall|j: int| 0 <= j < i ==> is_strided(#[trigger] primitive.attributes@[j]),
        decreases primitive.attributes.len() - i,
    {
        match primitive.attributes[i].1.view {
            None => {
                assert(is_sparse(primitive.attributes@[i as int]));
                return Err(Error::UnsupportedSparseStorage);
            },
            Some(view) => {
                if view.stride.is_some() {
                    assert(is_strided(primitive.attributes@[i as int]));
                    strided += 1;
                } else {
                    assert(!is_strided(primitive.attributes@[i as int]));
                }
            },
        }
        i += 1;
    }
    if strided == 0 {
        Ok(BufferLayout::Separate)
    } else if strided == primitive.attributes.len() {
        Ok(BufferLayout::Interleaved)
    } else {
        Err(Error::UnsupportedBufferLayout)
    }
}

/// Attributes of which one is strided and one is not, and none is sparse,
/// have no layout: they are a mix.
pub proof fn lemma_mixed_layout_is_rejected(
    attributes: Seq<(Semantic, Accessor)>,
    strided: int,
    plain: int,
)
    requires
        forall|i: int| 0 <= i < attributes.len() ==> !is_sparse(#[trigger] attributes[i]),
        0 <= strided < attributes.len(),
        0 <= plain < attributes.len(),
        is_strided(attributes[strided]),
        !is_strided(attributes[plain]),
    ensures
        layout_of(attributes) == Err::<BufferLayout, Error>(Error::UnsupportedBufferLayout),
{
}

} // verus!
