use vstd::prelude::*;

verus! {

/// Adds an actor to a router.
pub struct AddActorMessage<T> {
    pub actor: T,
}

impl<T> AddActorMessage<T> {
    pub fn new(actor: T) -> (m: Self)
        ensures
            m.actor == actor,
    {
        Self { actor }
    }
}

} // verus!
