use vstd::prelude::*;
use dashmap::DashMap;
use crate::actor::actor_address::ActorAddress;
use crate::actor::address_map::AddressMap;
use crate::system::actor_error::ActorError;
use crate::system::pool_table::{pool_table, pool_table_get, pool_table_insert, pool_table_new};

verus! {

/// How long a forced stop waits for actors to finish, in milliseconds.
pub const FORCE_STOP_TIMEOUT_MS: u64 = 1000;

/// Shared bookkeeping of an actor system: actors per thread pool, the
/// lifecycle flags and the exit code.
pub struct SystemState {
    max_actors_per_pool: DashMap<String, usize>,
    pool_actor_count: DashMap<String, usize>,
    total_actor_count: usize,
    is_stopped: bool,
    is_stopping: bool,
    is_force_stopped: bool,
    forced_exit_code: i32,
    use_forced_exit_code: bool,
    sigint_received: bool,
}

/// Abstract state of a [`SystemState`].
pub struct SystemStateView {
    /// per pool, the most actors it may hold; 0 means no limit
    pub max_actors_per_pool: Map<Seq<char>, usize>,
    /// per pool, the actors it holds
    pub pool_actor_count: Map<Seq<char>, usize>,
    pub total_actor_count: nat,
    pub is_stopped: bool,
    pub is_stopping: bool,
    pub is_force_stopped: bool,
    pub forced_exit_code: i32,
    pub use_forced_exit_code: bool,
    pub sigint_received: bool,
}

/// One step of the shutdown that follows a stop.
#[derive(Debug, Clone, Copy, PartialEq, Eq, Structural)]
pub enum ShutdownStep {
    /// actors are still running: wait and step again
    Wait,
    /// the system is stopped; `clear_mailboxes` tells whether the remaining
    /// mailboxes are to be dropped
    Finished { clear_mailboxes: bool },
}

/// The number of actors that pool `pool` holds.
pub open spec fn pool_count(v: SystemStateView, pool: Seq<char>) -> nat {
    if v.pool_actor_count.contains_key(pool) {
        v.pool_actor_count[pool] as nat
    } else {
        0
    }
}

/// The state after one actor was admitted to pool `pool`.
pub open spec fn admitted(v: SystemStateView, pool: Seq<char>) -> SystemStateView {
    SystemStateView {
        pool_actor_count: v.pool_actor_count.insert(
            pool,
            if pool_count(v, pool) == usize::MAX { 0 } else { (pool_count(v, pool) + 1) as usize },
        ),
        total_actor_count: if v.total_actor_count == usize::MAX { 0 } else { v.total_actor_count + 1 },
        ..v
    }
}

/// The outcome of admitting an actor to pool `pool`.
pub open spec fn admission(v: SystemStateView, pool: Seq<char>) -> Result<(), ActorError> {
    if !v.max_actors_per_pool.contains_key(pool) {
        Err(ActorError::ThreadPoolDoesNotExistError)
    } else if v.max_actors_per_pool[pool] != 0 && v.max_actors_per_pool[pool] <= pool_count(v, pool) {
        Err(ActorError::ThreadPoolHasTooManyActorsError)
    } else {
        Ok(())
    }
}

/// The state after one actor left pool `pool`.
pub open spec fn released(v: SystemStateView, pool: Seq<char>) -> SystemStateView {
    SystemStateView {
        pool_actor_count: if v.pool_actor_count.contains_key(pool) {
            v.pool_actor_count.insert(
                pool,
                if v.pool_actor_count[pool] == 0 { usize::MAX } else { (v.pool_actor_count[pool] - 1) as usize },
            )
        } else {
            v.pool_actor_count
        },
        total_actor_count: if v.total_actor_count == 0 { usize::MAX as nat } else { (v.total_actor_count - 1) as nat },
        ..v
    }
}

/// How many more actors pool `pool` may take: `usize::MAX` minus what it
/// holds where it has no limit.
pub open spec fn available(v: SystemStateView, pool: Seq<char>) -> Result<usize, ActorError> {
    if !v.max_actors_per_pool.contains_key(pool) {
        Err(ActorError::ThreadPoolDoesNotExistError)
    } else if v.max_actors_per_pool[pool] == 0 {
        Ok((usize::MAX - pool_count(v, pool)) as usize)
    } else {
        Ok((v.max_actors_per_pool[pool] - pool_count(v, pool)) as usize)
    }
}

/// The subtraction in [`available`] does not go below zero.
pub open spec fn available_defined(v: SystemStateView, pool: Seq<char>) -> bool {
    v.max_actors_per_pool.contains_key(pool) && v.max_actors_per_pool[pool] != 0
        ==> pool_count(v, pool) <= v.max_actors_per_pool[pool]
}

/// The state after a stop request, and whether a shutdown is to be started.
pub open spec fn stopped_by(v: SystemStateView) -> SystemStateView {
    SystemStateView { is_stopping: true, ..v }
}

/// The lifecycle flags are consistent: a system that stopped, or is forced
/// to, was asked to stop.
pub open spec fn lifecycle_consistent(v: SystemStateView) -> bool {
    &&& v.is_stopped ==> v.is_stopping
    &&& v.is_force_stopped ==> v.is_stopping
}

/// The exit code that a stopped system reports.
pub open spec fn exit_code(v: SystemStateView) -> i32 {
    if v.use_forced_exit_code {
        v.forced_exit_code
    } else if v.is_force_stopped {
        1
    } else {
        0
    }
}

/// A change of a [`SystemState`], as its methods make it.
pub enum StateOp {
    Stop,
    ForceStop,
    StopWithCode(i32),
    UseForcedExitCode(i32),
    ShutdownStep { elapsed_ms: u64, timeout_ms: u64 },
    Sigint,
    Admit(Seq<char>),
    Release(Seq<char>),
    AddLimit(Seq<char>, usize),
}

/// The state after `op`.
pub open spec fn state_after(v: SystemStateView, op: StateOp) -> SystemStateView {
    match op {
        StateOp::Stop => stopped_by(v),
        StateOp::ForceStop => SystemStateView { is_force_stopped: true, is_stopping: true, ..v },
        StateOp::StopWithCode(c) => SystemStateView {
            forced_exit_code: c,
            use_forced_exit_code: true,
            is_stopping: true,
            ..v
        },
        StateOp::UseForcedExitCode(c) => SystemStateView { forced_exit_code: c, use_forced_exit_code: true, ..v },
        StateOp::ShutdownStep { elapsed_ms, timeout_ms } => if !v.is_stopping {
            v
        } else if v.total_actor_count == 0 {
            SystemStateView { is_stopped: true, ..v }
        } else if elapsed_ms >= timeout_ms || v.is_force_stopped {
            SystemStateView { is_stopped: true, is_force_stopped: true, ..v }
        } else {
            v
        },
        StateOp::Sigint => if !v.sigint_received {
            SystemStateView { sigint_received: true, is_stopping: true, ..v }
        } else {
            SystemStateView { is_force_stopped: true, is_stopping: true, ..v }
        },
        StateOp::Admit(pool) => if admission(v, pool) is Ok { admitted(v, pool) } else { v },
        StateOp::Release(pool) => released(v, pool),
        StateOp::AddLimit(pool, limit) => SystemStateView {
            max_actors_per_pool: v.max_actors_per_pool.insert(pool, limit),
            ..v
        },
    }
}

/// The state after the changes `ops`, in order.
pub open spec fn state_after_all(v: SystemStateView, ops: Seq<StateOp>) -> SystemStateView
    decreases ops.len(),
{
    if ops.len() == 0 {
        v
    } else {
        state_after(state_after_all(v, ops.drop_last()), ops.last())
    }
}

/// The state of a new system whose pools have the limits `limits`.
pub open spec fn new_state(limits: Map<Seq<char>, usize>) -> SystemStateView {
    SystemStateView {
        max_actors_per_pool: limits,
        pool_actor_count: Map::empty(),
        total_actor_count: 0,
        is_stopped: false,
        is_stopping: false,
        is_force_stopped: false,
        forced_exit_code: 0,
        use_forced_exit_code: false,
        sigint_received: false,
    }
}

/// The exit code that the last of `ops` that sets one sets, if any does.
pub open spec fn code_of(ops: Seq<StateOp>) -> Option<i32>
    decreases ops.len(),
{
    if ops.len() == 0 {
        None
    } else {
        match ops.last() {
            StateOp::StopWithCode(c) => Some(c),
            StateOp::UseForcedExitCode(c) => Some(c),
            _ => code_of(ops.drop_last()),
        }
    }
}

impl View for SystemState {
    type V = SystemStateView;

    closed spec fn view(&self) -> SystemStateView {
        SystemStateView {
            max_actors_per_pool: pool_table(self.max_actors_per_pool),
            pool_actor_count: pool_table(self.pool_actor_count),
            total_actor_count: self.total_actor_count as nat,
            is_stopped: self.is_stopped,
            is_stopping: self.is_stopping,
            is_force_stopped: self.is_force_stopped,
            forced_exit_code: self.forced_exit_code,
            use_forced_exit_code: self.use_forced_exit_code,
            sigint_received: self.sigint_received,
        }
    }
}

/// The map that inserting each pair of `limits` in order gives.
pub open spec fn limits_map(limits: Seq<(String, usize)>) -> Map<Seq<char>, usize>
    decreases limits.len(),
{
    if limits.len() == 0 {
        Map::empty()
    } else {
        limits_map(limits.drop_last()).insert(limits.last().0@, limits.last().1)
    }
}

impl SystemState {
    /// A running system without actors, whose pools may hold the given
    /// numbers of actors (0 for no limit).
    pub fn new(max_actors_per_pool: Vec<(String, usize)>) -> (s: Self)
        ensures
            s@ == new_state(limits_map(max_actors_per_pool@)),
            s@.max_actors_per_pool == limits_map(max_actors_per_pool@),
            s@.pool_actor_count == Map::<Seq<char>, usize>::empty(),
            s@.total_actor_count == 0,
            !s@.is_stopped,
            !s@.is_stopping,
            !s@.is_force_stopped,
            s@.forced_exit_code == 0,
            !s@.use_forced_exit_code,
            !s@.sigint_received,
    {
        let mut table = pool_table_new();
        assert(pool_table(table) =~= Map::<Seq<char>, usize>::empty());
        let mut limits = max_actors_per_pool;
        let ghost all = limits@;
        let mut rest: Vec<(String, usize)> = Vec::new();
        let ghost mut done: Seq<(String, usize)> = Seq::empty();
        // the entries are inserted in order, so reverse them first
        while limits.len() > 0
            invariant
                all == limits@ + rest@.reverse(),
            decreases limits.len(),
        {
            let e = limits.pop().unwrap();
            rest.push(e);
            proof {
                assert(all =~= limits@ + rest@.reverse());
            }
        }
        assert(rest@.reverse() =~= all);
        while rest.len() > 0
            invariant
                all == done + rest@.reverse(),
                pool_table(table) == limits_map(done),
            decreases rest.len(),
        {
            let e = rest.pop().unwrap();
            let ghost prev = done;
            proof {
                done = done.push(e);
                assert(all =~= done + rest@.reverse());
                assert(done.drop_last() =~= prev);
            }
            let (name, max) = e;
            pool_table_insert(&mut table, name, max);
        }
        assert(done =~= all);
        let counts = pool_table_new();
        assert(pool_table(counts) =~= Map::<Seq<char>, usize>::empty());
        Self {
            max_actors_per_pool: table,
            pool_actor_count: counts,
            total_actor_count: 0,
            is_stopped: false,
            is_stopping: false,
            is_force_stopped: false,
            forced_exit_code: 0,
            use_forced_exit_code: false,
            sigint_received: false,
        }
    }

    /// Asks the system to stop; the shutdown, with the given timeout, is to
    /// be started when this is the first request.
    pub fn stop(&mut self, graceful_termination_timeout_ms: u64) -> (start_shutdown: Option<u64>)
        ensures
            final(self)@ == state_after(old(self)@, StateOp::Stop),
            old(self)@.is_stopping ==> start_shutdown is None && final(self)@ == old(self)@,
            !old(self)@.is_stopping ==> start_shutdown == Some(graceful_termination_timeout_ms)
                && final(self)@ == stopped_by(old(self)@),
    {
        if self.is_stopping {
            return None;
        }
        self.is_stopping = true;
        Some(graceful_termination_timeout_ms)
    }

    /// Stops the system without waiting for actors to finish their messages.
    pub fn force_stop(&mut self) -> (start_shutdown: Option<u64>)
        ensures
            final(self)@ == state_after(old(self)@, StateOp::ForceStop),
            old(self)@.is_stopping ==> start_shutdown is None
                && final(self)@ == (SystemStateView { is_force_stopped: true, ..old(self)@ }),
            !old(self)@.is_stopping ==> start_shutdown == Some(FORCE_STOP_TIMEOUT_MS)
                && final(self)@ == (SystemStateView { is_force_stopped: true, is_stopping: true, ..old(self)@ }),
    {
        self.is_force_stopped = true;
        self.stop(FORCE_STOP_TIMEOUT_MS)
    }

    /// One step of the shutdown: `elapsed_ms` have passed since it started.
    /// It ends once no actor is left, or forcibly once the timeout passed or
    /// a forced stop was asked for.
    pub fn shutdown_step(&mut self, elapsed_ms: u64, timeout_ms: u64) -> (step: ShutdownStep)
        requires
            old(self)@.is_stopping,
        ensures
            final(self)@ == state_after(old(self)@, StateOp::ShutdownStep { elapsed_ms, timeout_ms }),
            old(self)@.total_actor_count == 0 ==> step == (ShutdownStep::Finished { clear_mailboxes: false })
                && final(self)@ == (SystemStateView { is_stopped: true, ..old(self)@ }),
            old(self)@.total_actor_count != 0 && (elapsed_ms >= timeout_ms || old(self)@.is_force_stopped)
                ==> step == (ShutdownStep::Finished { clear_mailboxes: true })
                && final(self)@ == (SystemStateView { is_stopped: true, is_force_stopped: true, ..old(self)@ }),
            old(self)@.total_actor_count != 0 && !(elapsed_ms >= timeout_ms || old(self)@.is_force_stopped)
                ==> step == ShutdownStep::Wait && final(self)@ == old(self)@,
    {
        if self.total_actor_count != 0 {
            if elapsed_ms >= timeout_ms || self.is_force_stopped {
                self.is_force_stopped = true;
                self.is_stopped = true;
                return ShutdownStep::Finished { clear_mailboxes: true };
            }
            return ShutdownStep::Wait;
        }
        self.is_stopped = true;
        ShutdownStep::Finished { clear_mailboxes: false }
    }

    pub fn is_stopped(&self) -> (r: bool)
        ensures
            r == self@.is_stopped,
    {
        self.is_stopped
    }

    pub fn is_stopping(&self) -> (r: bool)
        ensures
            r == self@.is_stopping,
    {
        self.is_stopping
    }

    pub fn is_force_stopped(&self) -> (r: bool)
        ensures
            r == self@.is_force_stopped,
    {
        self.is_force_stopped
    }

    /// Makes the system report `code` once it stopped.
    pub fn use_forced_exit_code(&mut self, code: i32)
        ensures
            final(self)@ == state_after(old(self)@, StateOp::UseForcedExitCode(code)),
            final(self)@ == (SystemStateView { forced_exit_code: code, use_forced_exit_code: true, ..old(self)@ }),
    {
        self.forced_exit_code = code;
        self.use_forced_exit_code = true;
    }

    /// Asks the system to stop, and to report `code` once it stopped.
    pub fn stop_with_code(&mut self, graceful_termination_timeout_ms: u64, code: i32) -> (start_shutdown: Option<u64>)
        ensures
            final(self)@ == state_after(old(self)@, StateOp::StopWithCode(code)),
            old(self)@.is_stopping ==> start_shutdown is None,
            !old(self)@.is_stopping ==> start_shutdown == Some(graceful_termination_timeout_ms),
            final(self)@ == (SystemStateView {
                forced_exit_code: code,
                use_forced_exit_code: true,
                is_stopping: true,
                ..old(self)@
            }),
            exit_code(final(self)@) == code,
    {
        self.use_forced_exit_code(code);
        self.stop(graceful_termination_timeout_ms)
    }

    /// The exit code: the forced one where one was set, else 1 after a
    /// forced stop and 0 after a clean one.
    pub fn get_exit_code(&self) -> (code: i32)
        ensures
            code == exit_code(self@),
    {
        if self.use_forced_exit_code {
            return self.forced_exit_code;
        }
        if self.is_force_stopped {
            1
        } else {
            0
        }
    }

    pub fn get_actor_count(&self) -> (n: usize)
        ensures
            n == self@.total_actor_count,
    {
        self.total_actor_count
    }

    /// Admits one more actor to the pool of `address`, unless the pool does
    /// not exist or is full.
    pub fn increase_pool_actor_count(&mut self, address: &ActorAddress) -> (r: Result<(), ActorError>)
        ensures
            final(self)@ == state_after(old(self)@, StateOp::Admit(address@.pool)),
            r == admission(old(self)@, address@.pool),
            r is Ok ==> final(self)@ == admitted(old(self)@, address@.pool),
            r is Err ==> final(self)@ == old(self)@,
    {
        let maximum_actor_count = match pool_table_get(&self.max_actors_per_pool, address.pool.as_str()) {
            None => {
                return Err(ActorError::ThreadPoolDoesNotExistError);
            },
            Some(m) => m,
        };
        let current = match pool_table_get(&self.pool_actor_count, address.pool.as_str()) {
            None => 0,
            Some(c) => c,
        };
        if maximum_actor_count != 0 && maximum_actor_count <= current {
            return Err(ActorError::ThreadPoolHasTooManyActorsError);
        }
        pool_table_insert(&mut self.pool_actor_count, address.pool.clone(), current.wrapping_add(1));
        self.total_actor_count = self.total_actor_count.wrapping_add(1);
        proof {
            assert(final(self)@.pool_actor_count == admitted(old(self)@, address@.pool).pool_actor_count);
        }
        Ok(())
    }

    /// Lets one actor leave the pool of `address`.
    pub fn decrease_pool_actor_count(&mut self, address: &ActorAddress)
        ensures
            final(self)@ == state_after(old(self)@, StateOp::Release(address@.pool)),
            final(self)@ == released(old(self)@, address@.pool),
    {
        match pool_table_get(&self.pool_actor_count, address.pool.as_str()) {
            Some(c) => {
                pool_table_insert(&mut self.pool_actor_count, address.pool.clone(), c.wrapping_sub(1));
            },
            None => {},
        }
        self.total_actor_count = self.total_actor_count.wrapping_sub(1);
    }

    /// Lets the actor at `address` leave its pool, and takes its mailbox out
    /// of `mailboxes`.
    pub fn remove_mailbox<M>(&mut self, mailboxes: &mut AddressMap<M>, address: &ActorAddress) -> (removed: Option<M>)
        ensures
            final(self)@ == state_after(old(self)@, StateOp::Release(address@.pool)),
            final(self)@ == released(old(self)@, address@.pool),
            final(mailboxes)@ == old(mailboxes)@.remove(address@),
            match removed {
                Some(m) => old(mailboxes)@.contains_key(address@) && m == old(mailboxes)@[address@],
                None => !old(mailboxes)@.contains_key(address@),
            },
    {
        self.decrease_pool_actor_count(address);
        mailboxes.remove(address)
    }

    /// Sets the most actors that pool `pool_name` may hold (0: no limit).
    pub fn add_pool_actor_limit(&mut self, pool_name: String, max_actors: usize)
        ensures
            final(self)@ == state_after(old(self)@, StateOp::AddLimit(pool_name@, max_actors)),
            final(self)@ == (SystemStateView {
                max_actors_per_pool: old(self)@.max_actors_per_pool.insert(pool_name@, max_actors),
                ..old(self)@
            }),
    {
        pool_table_insert(&mut self.max_actors_per_pool, pool_name, max_actors);
    }

    /// How many more actors pool `pool_name` may take; without a limit,
    /// `usize::MAX` minus the actors it holds.
    pub fn get_available_actor_count_for_pool(&self, pool_name: &str) -> (r: Result<usize, ActorError>)
        requires
            available_defined(self@, pool_name@),
        ensures
            r == available(self@, pool_name@),
    {
        let maximum_actor_count = match pool_table_get(&self.max_actors_per_pool, pool_name) {
            None => {
                return Err(ActorError::ThreadPoolDoesNotExistError);
            },
            Some(m) => m,
        };
        let current = match pool_table_get(&self.pool_actor_count, pool_name) {
            None => 0,
            Some(c) => c,
        };
        if maximum_actor_count == 0 {
            return Ok(usize::MAX - current);
        }
        Ok(maximum_actor_count - current)
    }

    /// As [`Self::get_available_actor_count_for_pool`], or `None` where the
    /// pool holds more actors than its limit (the limit was lowered).
    pub fn try_get_available_actor_count_for_pool(&self, pool_name: &str) -> (r: Option<Result<usize, ActorError>>)
        ensures
            available_defined(self@, pool_name@) ==> r == Some(available(self@, pool_name@)),
            !available_defined(self@, pool_name@) ==> r is None,
    {
        let maximum_actor_count = pool_table_get(&self.max_actors_per_pool, pool_name);
        let current = match pool_table_get(&self.pool_actor_count, pool_name) {
            None => 0,
            Some(c) => c,
        };
        match maximum_actor_count {
            Some(m) => {
                if m != 0 && current > m {
                    return None;
                }
            },
            None => {},
        }
        Some(self.get_available_actor_count_for_pool(pool_name))
    }

    /// Handles an interrupt signal: the first asks for a stop with the given
    /// timeout, a second one forces the stop.
    pub fn sigint_handler(&mut self, graceful_termination_timeout_ms: u64) -> (start_shutdown: Option<u64>)
        ensures
            final(self)@ == state_after(old(self)@, StateOp::Sigint),
            !old(self)@.sigint_received ==> {
                &&& final(self)@ == (SystemStateView { sigint_received: true, is_stopping: true, ..old(self)@ })
                &&& start_shutdown == if old(self)@.is_stopping { None } else { Some(graceful_termination_timeout_ms) }
            },
            old(self)@.sigint_received ==> {
                &&& final(self)@ == (SystemStateView { is_force_stopped: true, is_stopping: true, ..old(self)@ })
                &&& start_shutdown == if old(self)@.is_stopping { None } else { Some(FORCE_STOP_TIMEOUT_MS) }
            },
    {
        let mut start = None;
        if self.sigint_received {
            start = self.force_stop();
        }
        self.sigint_received = true;
        let second = self.stop(graceful_termination_timeout_ms);
        if start.is_none() {
            start = second;
        }
        start
    }
}

} // verus!

verus! {

/// Admitting an actor to a pool and letting it leave again restores the
/// number of actors of every pool and the total, wrap-around included.
pub proof fn lemma_admit_then_release_restores_counts(v: SystemStateView, pool: Seq<char>, other: Seq<char>)
    ensures
        pool_count(released(admitted(v, pool), pool), other) == pool_count(v, other),
        released(admitted(v, pool), pool).total_actor_count == v.total_actor_count,
        released(admitted(v, pool), pool).max_actors_per_pool == v.max_actors_per_pool,
        available(released(admitted(v, pool), pool), other) == available(v, other),
{
}

/// A pool with a limit admits an actor exactly when it has room for one
/// more, and each admission takes one from the room that is left.
pub proof fn lemma_admission_takes_one_place(v: SystemStateView, pool: Seq<char>)
    requires
        available_defined(v, pool),
        v.max_actors_per_pool.contains_key(pool),
        v.max_actors_per_pool[pool] != 0,
        v.total_actor_count < usize::MAX,
    ensures
        available(v, pool) is Ok,
        admission(v, pool) is Ok <==> available(v, pool)->Ok_0 > 0,
        admission(v, pool) is Ok ==> {
            &&& available_defined(admitted(v, pool), pool)
            &&& available(admitted(v, pool), pool) is Ok
            &&& available(admitted(v, pool), pool)->Ok_0 == available(v, pool)->Ok_0 - 1
        },
{
}

/// A pool that does not exist neither admits actors nor reports room.
pub proof fn lemma_missing_pool(v: SystemStateView, pool: Seq<char>)
    requires
        !v.max_actors_per_pool.contains_key(pool),
    ensures
        admission(v, pool) == Err::<(), ActorError>(ActorError::ThreadPoolDoesNotExistError),
        available(v, pool) == Err::<usize, ActorError>(ActorError::ThreadPoolDoesNotExistError),
{
}

/// Every change of the lifecycle flags keeps them consistent: stopping,
/// forcing a stop, a step of the shutdown, an interrupt, and admitting or
/// releasing an actor.
pub proof fn lemma_lifecycle_stays_consistent(v: SystemStateView, pool: Seq<char>)
    requires
        lifecycle_consistent(v),
    ensures
        lifecycle_consistent(stopped_by(v)),
        lifecycle_consistent(SystemStateView { is_force_stopped: true, is_stopping: true, ..v }),
        lifecycle_consistent(SystemStateView { sigint_received: true, is_stopping: true, ..v }),
        v.is_stopping ==> lifecycle_consistent(SystemStateView { is_stopped: true, ..v }),
        v.is_stopping ==> lifecycle_consistent(SystemStateView { is_stopped: true, is_force_stopped: true, ..v }),
        lifecycle_consistent(admitted(v, pool)),
        lifecycle_consistent(released(v, pool)),
{
}

/// Stopping is idempotent: a second stop request finds the system stopping
/// and changes nothing more.
pub proof fn lemma_stop_idempotent(v: SystemStateView)
    ensures
        stopped_by(v).is_stopping,
        stopped_by(stopped_by(v)) == stopped_by(v),
{
}

/// The exit code: a forced code wins; otherwise a forced stop gives 1 and a
/// clean stop 0.
pub proof fn lemma_exit_code(v: SystemStateView, code: i32)
    ensures
        exit_code(SystemStateView { forced_exit_code: code, use_forced_exit_code: true, ..v }) == code,
        !v.use_forced_exit_code ==> exit_code(SystemStateView { is_force_stopped: true, ..v }) == 1,
        !v.use_forced_exit_code && !v.is_force_stopped ==> exit_code(v) == 0,
{
}

} // verus!

verus! {

/// Every pool that holds a count of actors has a limit entry, so a pool
/// without a limit entry holds no actors.
pub open spec fn counts_have_limits(v: SystemStateView) -> bool {
    forall|p: Seq<char>| #[trigger] v.pool_actor_count.contains_key(p) ==> v.max_actors_per_pool.contains_key(p)
}

/// A new system has no counts, and admitting an actor (which succeeds only in
/// a pool with a limit entry), releasing one, and setting a limit keep every
/// counted pool among the pools with a limit entry.
pub proof fn lemma_counts_have_limits_kept(v: SystemStateView, pool: Seq<char>, name: Seq<char>, limit: usize)
    requires
        counts_have_limits(v),
    ensures
        counts_have_limits(SystemStateView { pool_actor_count: Map::empty(), ..v }),
        admission(v, pool) is Ok ==> counts_have_limits(admitted(v, pool)),
        counts_have_limits(released(v, pool)),
        counts_have_limits(SystemStateView { max_actors_per_pool: v.max_actors_per_pool.insert(name, limit), ..v }),
{
}

/// A pool that is added with limit `limit` to a system whose counted pools all
/// have limit entries has room for `limit` actors, or for `usize::MAX` where
/// the limit is 0, and admits an actor.
pub proof fn lemma_new_pool_availability(v: SystemStateView, name: Seq<char>, limit: usize)
    requires
        counts_have_limits(v),
        !v.max_actors_per_pool.contains_key(name),
    ensures
        ({
            let w = SystemStateView { max_actors_per_pool: v.max_actors_per_pool.insert(name, limit), ..v };
            &&& available_defined(w, name)
            &&& available(w, name) == Ok::<usize, ActorError>(if limit == 0 { usize::MAX } else { limit })
            &&& admission(w, name) is Ok
        }),
{
}

} // verus!

verus! {

/// The exit code over any changes of a new system: the code that the last
/// `use_forced_exit_code` or `stop_with_code` set, where one did; else 1
/// where the system was force stopped (by `force_stop`, a second interrupt,
/// or a shutdown that ran out of time), and 0 where it was not.
pub proof fn lemma_exit_code_over_changes(limits: Map<Seq<char>, usize>, ops: Seq<StateOp>)
    ensures
        exit_code(state_after_all(new_state(limits), ops)) == match code_of(ops) {
            Some(c) => c,
            None => if state_after_all(new_state(limits), ops).is_force_stopped { 1i32 } else { 0i32 },
        },
{
    lemma_forced_code_tracks(limits, ops);
}

proof fn lemma_forced_code_tracks(limits: Map<Seq<char>, usize>, ops: Seq<StateOp>)
    ensures
        ({
            let w = state_after_all(new_state(limits), ops);
            match code_of(ops) {
                Some(c) => w.use_forced_exit_code && w.forced_exit_code == c,
                None => !w.use_forced_exit_code,
            }
        }),
    decreases ops.len(),
{
    if ops.len() > 0 {
        lemma_forced_code_tracks(limits, ops.drop_last());
    }
}

/// Every state that a new system reaches keeps its lifecycle flags
/// consistent and has a limit entry for every pool that holds a count; so a
/// pool that is then added with limit `limit` has room for `limit` actors
/// (`usize::MAX` where the limit is 0).
pub proof fn lemma_reachable_states(limits: Map<Seq<char>, usize>, ops: Seq<StateOp>, name: Seq<char>, limit: usize)
    ensures
        lifecycle_consistent(state_after_all(new_state(limits), ops)),
        counts_have_limits(state_after_all(new_state(limits), ops)),
        state_after_all(new_state(limits), ops).total_actor_count <= usize::MAX,
        !state_after_all(new_state(limits), ops).max_actors_per_pool.contains_key(name) ==> {
            let w = state_after_all(new_state(limits), ops.push(StateOp::AddLimit(name, limit)));
            &&& available_defined(w, name)
            &&& available(w, name) == Ok::<usize, ActorError>(if limit == 0 { usize::MAX } else { limit })
        },
    decreases ops.len(),
{
    let w = state_after_all(new_state(limits), ops);
    if ops.len() > 0 {
        lemma_reachable_states(limits, ops.drop_last(), name, limit);
        let u = state_after_all(new_state(limits), ops.drop_last());
        match ops.last() {
            StateOp::Admit(p) => {
                lemma_counts_have_limits_kept(u, p, name, limit);
            },
            StateOp::Release(p) => {
                lemma_counts_have_limits_kept(u, p, name, limit);
            },
            StateOp::AddLimit(p, l) => {
                lemma_counts_have_limits_kept(u, p, p, l);
            },
            _ => {},
        }
    }
    let pushed = ops.push(StateOp::AddLimit(name, limit));
    assert(pushed.drop_last() =~= ops);
    if !w.max_actors_per_pool.contains_key(name) {
        lemma_new_pool_availability(w, name, limit);
    }
}


/// A pool whose limit is 0 has no limit: it admits every actor, however many
/// it already holds, and it still admits the next one afterwards.
pub proof fn lemma_unlimited_pool_admits_every_actor(v: SystemStateView, pool: Seq<char>)
    requires
        v.max_actors_per_pool.contains_key(pool),
        v.max_actors_per_pool[pool] == 0,
    ensures
        admission(v, pool) is Ok,
        admission(admitted(v, pool), pool) is Ok,
{
}

/// A pool with a limit above 0 admits an actor exactly while it holds fewer
/// actors than its limit, and then refuses it as too full.
pub proof fn lemma_limited_pool_admits_below_limit(v: SystemStateView, pool: Seq<char>)
    requires
        v.max_actors_per_pool.contains_key(pool),
        v.max_actors_per_pool[pool] > 0,
    ensures
        admission(v, pool) is Ok <==> pool_count(v, pool) < v.max_actors_per_pool[pool],
        !(admission(v, pool) is Ok) ==> admission(v, pool) == Err::<(), ActorError>(
            ActorError::ThreadPoolHasTooManyActorsError,
        ),
{
}

/// A pool that was never set up admits no actor.
pub proof fn lemma_unknown_pool_admits_none(v: SystemStateView, pool: Seq<char>)
    requires
        !v.max_actors_per_pool.contains_key(pool),
    ensures
        admission(v, pool) == Err::<(), ActorError>(ActorError::ThreadPoolDoesNotExistError),
{
}

} // verus!
