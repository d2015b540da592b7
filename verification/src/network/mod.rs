pub mod network_manager;
pub mod tcp_remote_actor;
