use vstd::prelude::*;
use vstd::string::*;

verus! {

/// The state an actor is in after it handled messages.
#[derive(Debug, Clone, Copy, PartialEq, Eq, Structural)]
pub enum ActorState {
    Running,
    Inactive,
    /// asleep for this many milliseconds
    Sleeping(u64),
    Stopped,
}

/// Where an actor goes after a pool thread handled a batch of its messages.
#[derive(Debug, Clone, Copy, PartialEq, Eq, Structural)]
pub enum Disposition {
    /// back into the pool's queue
    Requeue,
    /// to the inactive actors, until a message wakes it
    AddInactive,
    /// to the sleeping actors, for this many milliseconds
    AddSleeping(u64),
    /// its mailbox is removed from the system
    RemoveMailbox,
}

/// The capacity of a pool's actor queue: unbounded (`None`) where the pool
/// has no actor limit.
pub fn queue_capacity(actor_limit: usize) -> (r: Option<usize>)
    ensures
        actor_limit == 0 ==> r is None,
        actor_limit != 0 ==> r == Some(actor_limit),
{
    if actor_limit == 0 {
        None
    } else {
        Some(actor_limit)
    }
}

/// Brings a computed thread count into `[threads_min, threads_max]`; the
/// minimum is checked first.
pub fn clamp_thread_count(thread_count: usize, threads_min: usize, threads_max: usize) -> (r: usize)
    ensures
        thread_count < threads_min ==> r == threads_min,
        thread_count >= threads_min && thread_count > threads_max ==> r == threads_max,
        threads_min <= thread_count <= threads_max ==> r == thread_count,
{
    if thread_count < threads_min {
        threads_min
    } else if thread_count > threads_max {
        threads_max
    } else {
        thread_count
    }
}

/// How many worker loops a pool with `active_count` of `max_count` threads
/// busy is to be given.
pub fn workers_to_spawn(active_count: usize, max_count: usize) -> (r: usize)
    ensures
        r == if active_count < max_count { max_count - active_count } else { 0 },
{
    if active_count < max_count {
        max_count - active_count
    } else {
        0
    }
}

/// Where an actor in `state` goes.
pub fn disposition(state: ActorState) -> (d: Disposition)
    ensures
        d == match state {
            ActorState::Running => Disposition::Requeue,
            ActorState::Inactive => Disposition::AddInactive,
            ActorState::Sleeping(ms) => Disposition::AddSleeping(ms),
            ActorState::Stopped => Disposition::RemoveMailbox,
        },
{
    match state {
        ActorState::Running => Disposition::Requeue,
        ActorState::Inactive => Disposition::AddInactive,
        ActorState::Sleeping(ms) => Disposition::AddSleeping(ms),
        ActorState::Stopped => Disposition::RemoveMailbox,
    }
}

/// Whether a pool thread lets an actor handle one more message: the actor
/// has handled `handled` of the `message_throughput` messages of its batch,
/// and the last one (or the start of the batch) left it `Running`. A batch
/// thus ends at the first state other than `Running`, or after
/// `message_throughput` messages.
pub fn batch_continues(handled: usize, message_throughput: usize, last: ActorState) -> (c: bool)
    ensures
        c == (handled < message_throughput && last == ActorState::Running),
{
    handled < message_throughput && last == ActorState::Running
}

/// The name of the pool of the cluster's network actors.
pub open spec fn cluster_pool_name() -> Seq<char> {
    "cluster"@
}

/// Whether a system sets up the configured pool `name`: every pool, except
/// the cluster pool where clustering is off.
pub fn pool_is_set_up(name: &String, cluster_enabled: bool) -> (r: bool)
    ensures
        r == (cluster_enabled || name@ != cluster_pool_name()),
{
    let cluster = String::from_str("cluster");
    proof {
        reveal_strlit("cluster");
    }
    cluster_enabled || *name != cluster
}

} // verus!
