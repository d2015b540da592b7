pub mod actor_address;
pub mod address_map;
pub mod actor_result;
pub mod actor_send_error;
