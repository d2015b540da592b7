use vstd::prelude::*;

verus! {

/// Why an actor could not be started.
#[derive(Debug, Clone, Copy, PartialEq, Eq, Structural)]
pub enum ActorError {
    /// the actor's factory failed while creating the actor
    InitError,
    /// an actor of that name exists, but is of another type
    InvalidActorTypeError,
    /// the thread pool already holds as many actors as it may
    ThreadPoolHasTooManyActorsError,
    /// the thread pool does not exist
    ThreadPoolDoesNotExistError,
}

/// The message that describes each error.
pub open spec fn actor_error_message(e: ActorError) -> Seq<char> {
    match e {
        ActorError::InitError => "Actor could not be started"@,
        ActorError::InvalidActorTypeError => "Actor exists, but is not of the expected Type"@,
        ActorError::ThreadPoolHasTooManyActorsError => "Actor could not be started, because thread-pool is full"@,
        ActorError::ThreadPoolDoesNotExistError => "Actor could not be started, because thread-pool does not exist"@,
    }
}

impl ActorError {
    /// The message that describes the error.
    pub fn message(&self) -> (m: &'static str)
        ensures
            m@ == actor_error_message(*self),
    {
        match self {
            ActorError::InitError => "Actor could not be started",
            ActorError::InvalidActorTypeError => "Actor exists, but is not of the expected Type",
            ActorError::ThreadPoolHasTooManyActorsError => "Actor could not be started, because thread-pool is full",
            ActorError::ThreadPoolDoesNotExistError => "Actor could not be started, because thread-pool does not exist",
        }
    }
}

} // verus!
