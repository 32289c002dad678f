//! Which objects may be embedded into a notebook.

use vstd::prelude::*;

verus! {

/// Where a cloud object lives.
#[derive(Debug, Clone, Copy, PartialEq, Eq, Structural)]
pub enum Space {
    Personal,
    Shared,
}

/// Whether an object owned by `object_owner` is visible to everyone who can
/// see an object in `embedding_space`: inside a personal object every object
/// the client can reach is visible; inside a shared one none is (its readers
/// are unknown to the user).
pub fn is_embed_accessible<Owner>(embedding_space: Space, object_owner: Owner) -> (r: bool)
    ensures
        r == (embedding_space == Space::Personal),
{
    match embedding_space {
        Space::Personal => true,
        Space::Shared => false,
    }
}

} // verus!
