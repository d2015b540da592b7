pub mod actor_error;
pub mod cluster;
pub mod config_order;
pub mod delay_actor;
pub mod pool_table;
pub mod system_state;
pub mod system_status;
pub mod thread_pool_manager;
pub mod wakeup_manager;

use vstd::prelude::*;
use crate::actor::actor_address::ActorAddress;

verus! {

/// A wake-up request of the system's wake-up queue: the actor at
/// `actor_address`, and how often the request went round.
pub struct WakeupMessage {
    pub iteration: usize,
    pub actor_address: ActorAddress,
}

} // verus!
