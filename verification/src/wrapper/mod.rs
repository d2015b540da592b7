pub mod actor_wrapper;
pub mod remote_actor_wrapper;
pub mod local_actor_wrapper;
