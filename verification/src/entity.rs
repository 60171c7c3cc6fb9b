//! Entity identifiers: opaque handles into the entity store.

use vstd::prelude::*;

verus! {

/// Identifier of an entity. Identifiers start at one; zero names no entity.
#[derive(Debug, Clone, Copy, PartialEq, Eq, Hash, Structural)]
pub struct EntityId {
    pub(crate) raw: usize,
}

impl View for EntityId {
    type V = nat;

    closed spec fn view(&self) -> nat {
        self.raw as nat
    }
}

impl EntityId {
    #[verifier::type_invariant]
    spec fn inv(&self) -> bool {
        self.raw != 0
    }

    /// The identifier with the given number, unless the number is zero.
    pub fn new(raw: usize) -> (id: Option<Self>)
        ensures
            raw == 0 <==> id.is_none(),
            id.is_some() ==> id.unwrap()@ == raw,
    {
        if raw == 0 {
            None
        } else {
            Some(EntityId { raw })
        }
    }

    /// The identifier's number, which is never zero.
    pub fn get(&self) -> (raw: usize)
        ensures
            raw == self@,
            raw != 0,
    {
        proof {
            use_type_invariant(self);
        }
        self.raw
    }
}

} // verus!
