use vstd::prelude::*;

verus! {

/// Removes an actor, found by its address, from a router.
pub struct RemoveActorMessage<T> {
    pub actor: T,
}

impl<T> RemoveActorMessage<T> {
    pub fn new(actor: T) -> (m: Self)
        ensures
            m.actor == actor,
    {
        Self { actor }
    }
}

} // verus!
