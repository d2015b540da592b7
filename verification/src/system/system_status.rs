use vstd::prelude::*;

verus! {

/// Counters and flags that describe the lifecycle of an actor system.
///
/// The counter behaves like an atomic counter: it wraps around on overflow
/// and underflow. A value of this type is one owned status: it cannot be
/// copied, so every change is seen by its only owner; a system whose threads
/// share one status holds it behind a lock.
pub struct ActorSystemStatus {
    total_actor_count: usize,
    is_stopped: bool,
    is_stopping: bool,
    is_force_stopped: bool,
}

/// Abstract state of an [`ActorSystemStatus`].
pub struct ActorSystemStatusView {
    pub total_actor_count: nat,
    pub is_stopped: bool,
    pub is_stopping: bool,
    pub is_force_stopped: bool,
}

impl View for ActorSystemStatus {
    type V = ActorSystemStatusView;

    closed spec fn view(&self) -> ActorSystemStatusView {
        ActorSystemStatusView {
            total_actor_count: self.total_actor_count as nat,
            is_stopped: self.is_stopped,
            is_stopping: self.is_stopping,
            is_force_stopped: self.is_force_stopped,
        }
    }
}

/// The value of a `usize` counter after one increment that wraps around.
pub open spec fn wrapping_inc(n: nat) -> nat {
    if n == usize::MAX as nat { 0 } else { n + 1 }
}

/// The value of a `usize` counter after one decrement that wraps around.
pub open spec fn wrapping_dec(n: nat) -> nat {
    if n == 0 { usize::MAX as nat } else { (n - 1) as nat }
}

/// A change of an [`ActorSystemStatus`].
pub enum StatusOp {
    Stop,
    FinalizeStop(bool),
    Increment,
    Decrement,
}

/// The status after `op`.
pub open spec fn status_after(v: ActorSystemStatusView, op: StatusOp) -> ActorSystemStatusView {
    match op {
        StatusOp::Stop => ActorSystemStatusView { is_stopping: true, ..v },
        StatusOp::FinalizeStop(force) => ActorSystemStatusView {
            is_stopped: true,
            is_force_stopped: v.is_force_stopped || force,
            ..v
        },
        StatusOp::Increment => ActorSystemStatusView { total_actor_count: wrapping_inc(v.total_actor_count), ..v },
        StatusOp::Decrement => ActorSystemStatusView { total_actor_count: wrapping_dec(v.total_actor_count), ..v },
    }
}

/// The status after the changes `ops`, in order.
pub open spec fn status_after_all(v: ActorSystemStatusView, ops: Seq<StatusOp>) -> ActorSystemStatusView
    decreases ops.len(),
{
    if ops.len() == 0 {
        v
    } else {
        status_after(status_after_all(v, ops.drop_last()), ops.last())
    }
}

/// The status of a new system.
pub open spec fn new_status() -> ActorSystemStatusView {
    ActorSystemStatusView { total_actor_count: 0, is_stopped: false, is_stopping: false, is_force_stopped: false }
}

impl ActorSystemStatus {
    /// A running system without actors.
    pub fn new() -> (s: Self)
        ensures
            s@.total_actor_count == 0,
            !s@.is_stopped,
            !s@.is_stopping,
            !s@.is_force_stopped,
            s@ == new_status(),
    {
        Self { total_actor_count: 0, is_stopped: false, is_stopping: false, is_force_stopped: false }
    }

    /// Marks the system as stopping.
    pub fn stop(&mut self)
        ensures
            final(self)@ == status_after(old(self)@, StatusOp::Stop),
            final(self)@ == (ActorSystemStatusView { is_stopping: true, ..old(self)@ }),
    {
        self.is_stopping = true;
    }

    /// Marks the system as stopped, and as force stopped if `force` is set.
    pub fn finalize_stop(&mut self, force: bool)
        ensures
            final(self)@ == status_after(old(self)@, StatusOp::FinalizeStop(force)),
            final(self)@ == (ActorSystemStatusView {
                is_stopped: true,
                is_force_stopped: old(self)@.is_force_stopped || force,
                ..old(self)@
            }),
    {
        if force {
            self.is_force_stopped = true;
        }
        self.is_stopped = true;
    }

    pub fn is_stopped(&self) -> (r: bool)
        ensures
            r == self@.is_stopped,
    {
        self.is_stopped
    }

    pub fn is_stopping(&self) -> (r: bool)
        ensures
            r == self@.is_stopping,
    {
        self.is_stopping
    }

    pub fn is_force_stopped(&self) -> (r: bool)
        ensures
            r == self@.is_force_stopped,
    {
        self.is_force_stopped
    }

    pub fn increment_actor_count(&mut self)
        ensures
            final(self)@ == status_after(old(self)@, StatusOp::Increment),
            final(self)@ == (ActorSystemStatusView {
                total_actor_count: wrapping_inc(old(self)@.total_actor_count),
                ..old(self)@
            }),
    {
        self.total_actor_count = self.total_actor_count.wrapping_add(1);
    }

    pub fn decrement_actor_count(&mut self)
        ensures
            final(self)@ == status_after(old(self)@, StatusOp::Decrement),
            final(self)@ == (ActorSystemStatusView {
                total_actor_count: wrapping_dec(old(self)@.total_actor_count),
                ..old(self)@
            }),
    {
        self.total_actor_count = self.total_actor_count.wrapping_sub(1);
    }

    pub fn get_actor_count(&self) -> (r: usize)
        ensures
            r == self@.total_actor_count,
    {
        self.total_actor_count
    }
}

} // verus!

verus! {

/// Incrementing and then decrementing the actor counter, or the other way
/// round, gives back the count, wrap-around included.
pub proof fn lemma_increment_decrement_inverse(n: nat)
    requires
        n <= usize::MAX,
    ensures
        wrapping_dec(wrapping_inc(n)) == n,
        wrapping_inc(wrapping_dec(n)) == n,
{
}

} // verus!

verus! {

/// The status flags only ever turn on, and each has one cause: from a new
/// system, after any changes, the system is stopping exactly where it was
/// asked to stop, stopped exactly where its stop was finalized, and force
/// stopped exactly where a stop was finalized by force; so a force-stopped
/// system is stopped.
pub proof fn lemma_status_flags(ops: Seq<StatusOp>)
    ensures
        status_after_all(new_status(), ops).is_stopping <==> exists|i: int| 0 <= i < ops.len() && #[trigger] ops[i] is Stop,
        status_after_all(new_status(), ops).is_stopped <==> exists|i: int| 0 <= i < ops.len() && #[trigger] ops[i] is FinalizeStop,
        status_after_all(new_status(), ops).is_force_stopped <==> exists|i: int|
            0 <= i < ops.len() && #[trigger] ops[i] == StatusOp::FinalizeStop(true),
        status_after_all(new_status(), ops).is_force_stopped ==> status_after_all(new_status(), ops).is_stopped,
    decreases ops.len(),
{
    if ops.len() > 0 {
        let rest = ops.drop_last();
        lemma_status_flags(rest);
        assert forall|i: int| 0 <= i < rest.len() implies rest[i] == ops[i] by {}
        let last = ops.last();
        assert(ops[ops.len() - 1] == last);
        if exists|i: int| 0 <= i < ops.len() && #[trigger] ops[i] is Stop {
            let i = choose|i: int| 0 <= i < ops.len() && #[trigger] ops[i] is Stop;
            if i < rest.len() {
                assert(rest[i] is Stop);
            }
        }
        if exists|i: int| 0 <= i < ops.len() && #[trigger] ops[i] is FinalizeStop {
            let i = choose|i: int| 0 <= i < ops.len() && #[trigger] ops[i] is FinalizeStop;
            if i < rest.len() {
                assert(rest[i] is FinalizeStop);
            }
        }
        if exists|i: int| 0 <= i < ops.len() && #[trigger] ops[i] == StatusOp::FinalizeStop(true) {
            let i = choose|i: int| 0 <= i < ops.len() && #[trigger] ops[i] == StatusOp::FinalizeStop(true);
            if i < rest.len() {
                assert(rest[i] == StatusOp::FinalizeStop(true));
            }
        }
    }
}

} // verus!
