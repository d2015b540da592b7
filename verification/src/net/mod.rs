pub mod net_config;
pub mod net_loop;
pub mod net_manager;
pub mod net_messages;
pub mod net_worker;
