use vstd::prelude::*;

verus! {

/// Why a message could not be sent to an actor.
#[derive(Debug, Clone, Copy, PartialEq, Eq, Structural)]
pub enum ActorSendError {
    /// the actor does not accept messages any more
    AlreadyStoppedError,
    /// the operation is only possible on local actors
    NotAllowedForRemoteActorError,
}

} // verus!
