//! Mirroring of two-dimensional transforms.

use vstd::prelude::*;

verus! {

/// Axis along which a two-dimensional transform mirrors.
#[derive(Debug, Clone, Copy, PartialEq, Eq, PartialOrd, Ord, Hash, Structural)]
pub enum Flip {
    Horizontal,
    Vertical,
    All,
}

} // verus!
