//! Typed actor system: the decision logic of thread pools, routers, network
//! workers and system state, with its contracts.
pub mod actor;
pub mod system;
pub mod wrapper;
pub mod routers;
pub mod net;
pub mod network;
pub mod router;
