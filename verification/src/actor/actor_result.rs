use vstd::prelude::*;

verus! {

/// What an actor wants to happen after it handled a message.
#[derive(Debug, Clone, Copy, PartialEq, Eq, Structural)]
pub enum ActorResult {
    /// keep running
    Continue,
    /// stop the actor
    Stop,
}

} // verus!
