use vstd::prelude::*;
use crate::routers::round_robin_router::RoundRobinRouter;

verus! {

/// Creates round-robin routers.
pub struct RoundRobinRouterProps {}

impl RoundRobinRouterProps {
    pub fn new() -> (p: Self) {
        Self {}
    }

    /// The router these properties describe: one without targets.
    pub fn new_actor<T>(&self) -> (r: RoundRobinRouter<T>)
        ensures
            r@.route_index == 0,
            r@.route_to.len() == 0,
            !r@.can_route,
    {
        RoundRobinRouter::new()
    }
}

} // verus!
