pub mod add_actor_message;
pub mod bulk_router_message;
pub mod remove_actor_message;
pub mod send_to_all_targets_message;
pub mod route_decision;
pub mod hash_ring;
pub mod round_robin_router;
pub mod least_message_router;
pub mod sharded_router;
