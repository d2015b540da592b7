pub mod router_message;
pub mod round_robin_router;

pub use crate::routers::add_actor_message::AddActorMessage;
pub use crate::routers::remove_actor_message::RemoveActorMessage;
