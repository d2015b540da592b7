use vstd::prelude::*;

verus! {

/// How long, in milliseconds, a delayed message waits before it is looked at again.
pub const DELAY_RETRY_PAUSE_MS: u64 = 100;

/// An actor that holds messages back until their delay passed.
pub struct DelayActor {}

impl DelayActor {
    pub fn new() -> (a: Self) {
        Self {}
    }
}

/// Creates [`DelayActor`]s.
pub struct DelayActorFactory {}

impl DelayActorFactory {
    pub fn new() -> (f: Self) {
        Self {}
    }

    pub fn new_actor(&self) -> (a: DelayActor) {
        DelayActor::new()
    }
}

/// What the delay actor does with a message.
#[derive(Debug, Clone, Copy, PartialEq, Eq, Structural)]
pub enum DelayDecision {
    /// the delay passed: send it to its destination
    Deliver,
    /// pause for [`DELAY_RETRY_PAUSE_MS`] and send it to itself again
    Retry,
}

/// Decides on a message that waited `elapsed_ms` of its `delay_ms`.
pub fn delay_decision(elapsed_ms: u64, delay_ms: u64) -> (d: DelayDecision)
    ensures
        d == if elapsed_ms >= delay_ms { DelayDecision::Deliver } else { DelayDecision::Retry },
{
    if elapsed_ms >= delay_ms {
        DelayDecision::Deliver
    } else {
        DelayDecision::Retry
    }
}

} // verus!
