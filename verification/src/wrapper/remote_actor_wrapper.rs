use vstd::prelude::*;
use crate::actor::actor_send_error::ActorSendError;

verus! {

/// The answers that a handle of an actor on another system gives for the
/// operations that only make sense for local actors.
#[derive(Clone, Copy, Debug)]
pub struct RemoteActorWrapper {}

impl RemoteActorWrapper {
    pub fn new() -> (r: Self) {
        Self {}
    }

    /// Remote actors cannot be stopped from here.
    pub fn stop(&self) -> (r: Result<(), ActorSendError>)
        ensures
            r == Err::<(), ActorSendError>(ActorSendError::NotAllowedForRemoteActorError),
    {
        Err(ActorSendError::NotAllowedForRemoteActorError)
    }

    /// Remote actors cannot be put to sleep from here.
    pub fn sleep(&self, _duration_ms: u64) -> (r: Result<(), ActorSendError>)
        ensures
            r == Err::<(), ActorSendError>(ActorSendError::NotAllowedForRemoteActorError),
    {
        Err(ActorSendError::NotAllowedForRemoteActorError)
    }

    /// Sending after a delay is accepted and does nothing for remote actors.
    pub fn send_after(&self, _delay_ms: u64) -> (r: Result<(), ActorSendError>)
        ensures
            r == Ok::<(), ActorSendError>(()),
    {
        Ok(())
    }

    /// The mailbox of a remote actor is not visible: it counts as empty.
    pub fn get_mailbox_size(&self) -> (r: usize)
        ensures
            r == 0,
    {
        0
    }

    pub fn is_mailbox_stopped(&self) -> (r: bool)
        ensures
            !r,
    {
        false
    }

    pub fn is_stopped(&self) -> (r: bool)
        ensures
            !r,
    {
        false
    }
}

} // verus!
