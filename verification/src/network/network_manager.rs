use vstd::prelude::*;

verus! {

/// Creates network managers that wait the given number of seconds before
/// they stop.
pub struct NetworkManagerFactory {
    graceful_shutdown_time_in_seconds: u64,
}

impl NetworkManagerFactory {
    pub fn new(graceful_shutdown_time_in_seconds: u64) -> (f: Self)
        ensures
            f.graceful_shutdown_time_in_seconds() == graceful_shutdown_time_in_seconds,
    {
        Self { graceful_shutdown_time_in_seconds }
    }

    pub closed spec fn graceful_shutdown_time_in_seconds(&self) -> u64 {
        self.graceful_shutdown_time_in_seconds
    }

    /// How long a manager made by this factory waits before it stops.
    pub fn get_graceful_shutdown_time_in_seconds(&self) -> (s: u64)
        ensures
            s == self.graceful_shutdown_time_in_seconds(),
    {
        self.graceful_shutdown_time_in_seconds
    }
}

} // verus!
