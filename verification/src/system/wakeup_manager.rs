use vstd::prelude::*;
use crate::actor::actor_address::{ActorAddress, ActorAddressView};
use crate::actor::address_map::AddressMap;

verus! {

/// How long, in milliseconds, an actor counts as freshly woken: repeated first
/// wake-up requests within this time are dropped.
pub const WAKEUP_DEDUPLICATION_MS: u64 = 4000;

/// The window, in milliseconds, of the wake loop that an actor system runs
/// itself (without a wake-up manager): a repeated first wake-up request
/// within it is dropped.
pub const SYSTEM_WAKE_DEDUPLICATION_MS: u64 = 750;

/// A request to wake the actor at `actor_address`; `iteration` counts how often
/// the request went round because the actor was not yet inactive.
pub struct Wakeup {
    pub iteration: usize,
    pub actor_address: ActorAddress,
}

/// A request to wake the actor at `actor_address` once `duration` milliseconds
/// passed since `now` (a millisecond timestamp).
pub struct Sleep {
    pub now: u64,
    pub duration: u64,
    pub actor_address: ActorAddress,
}

/// What becomes of a sleep request that is looked at.
pub enum SleepOutcome {
    /// the time is up: wake the actor
    WakeUp(Wakeup),
    /// not yet: put the request back
    Requeue(Sleep),
}

/// What becomes of a wake-up request.
pub enum WakeupOutcome {
    /// a duplicate of a recent wake-up: dropped
    Skip,
    /// the actor is not inactive yet: the request goes round again
    Requeue(Wakeup),
    /// the actor is taken from the inactive ones and handed to its pool
    Dispatch(ActorAddress),
}

/// Which of the three outcomes a wake-up request has.
#[derive(Debug, Clone, Copy, PartialEq, Eq, Structural)]
pub enum WakeupKind {
    Skip,
    Requeue,
    Dispatch,
}

/// Milliseconds from `then` to `now`, zero where the clock went back.
pub open spec fn elapsed_ms(then: u64, now: u64) -> int {
    if now >= then {
        now - then
    } else {
        0
    }
}

/// Decides on a sleep request at time `now_ms`.
pub fn check_sleep(sleep: Sleep, now_ms: u64) -> (r: SleepOutcome)
    ensures
        elapsed_ms(sleep.now, now_ms) >= sleep.duration ==> (r matches SleepOutcome::WakeUp(w)
            && w.iteration == 1 && w.actor_address@ == sleep.actor_address@),
        elapsed_ms(sleep.now, now_ms) < sleep.duration ==> (r matches SleepOutcome::Requeue(s)
            && s.now == sleep.now && s.duration == sleep.duration && s.actor_address@ == sleep.actor_address@),
{
    let elapsed = now_ms.saturating_sub(sleep.now);
    if elapsed >= sleep.duration {
        SleepOutcome::WakeUp(Wakeup { iteration: 1, actor_address: sleep.actor_address })
    } else {
        SleepOutcome::Requeue(sleep)
    }
}

/// The time of the last wake-up of each recently woken actor.
pub struct WakeDeduplication {
    last_wakeups: AddressMap<u64>,
}

/// The wake-up time of `a` in a map of wake-up times, if it has one.
pub open spec fn last_wakeup(m: Map<ActorAddressView, u64>, a: ActorAddressView) -> Option<u64> {
    if m.contains_key(a) {
        Some(m[a])
    } else {
        None
    }
}

/// The outcome of a wake-up request for an actor that `inactive` tells to be
/// inactive or not, when its last wake-up time is `last`.
pub open spec fn wakeup_kind(
    last: Option<u64>,
    iteration: usize,
    now_ms: u64,
    window_ms: u64,
    inactive: bool,
) -> WakeupKind {
    if last is Some && iteration == 0 && elapsed_ms(last->0, now_ms) < window_ms {
        WakeupKind::Skip
    } else if !inactive {
        WakeupKind::Requeue
    } else {
        WakeupKind::Dispatch
    }
}

impl View for WakeDeduplication {
    type V = Map<ActorAddressView, u64>;

    closed spec fn view(&self) -> Map<ActorAddressView, u64> {
        self.last_wakeups@
    }
}

impl WakeDeduplication {
    pub fn new() -> (d: Self)
        ensures
            d@ == Map::<ActorAddressView, u64>::empty(),
    {
        Self { last_wakeups: AddressMap::new() }
    }

    /// The last wake-up time of `a`, if it has one.
    pub fn get(&self, a: &ActorAddress) -> (r: Option<u64>)
        ensures
            r == last_wakeup(self@, a@),
    {
        match self.last_wakeups.get(a) {
            Some(t) => Some(*t),
            None => None,
        }
    }

    /// Handles a wake-up request at time `now_ms` for an actor that
    /// `inactive` tells to be inactive or not. A first request (iteration
    /// 0) for an actor woken less than `window_ms` ago is dropped; otherwise
    /// the wake-up time is recorded, and the actor is dispatched where it is
    /// inactive, while the request goes round again where it is not.
    pub fn process(&mut self, msg: Wakeup, now_ms: u64, window_ms: u64, inactive: bool) -> (r: WakeupOutcome)
        requires
            msg.iteration < usize::MAX,
        ensures
            ({
                let k = wakeup_kind(last_wakeup(old(self)@, msg.actor_address@), msg.iteration, now_ms,
                    window_ms, inactive);
                &&& k == WakeupKind::Skip ==> r is Skip && final(self)@ == old(self)@
                &&& k != WakeupKind::Skip ==> final(self)@ == old(self)@.insert(msg.actor_address@, now_ms)
                &&& k == WakeupKind::Requeue ==> (r matches WakeupOutcome::Requeue(w) && w.iteration == msg.iteration + 1
                    && w.actor_address@ == msg.actor_address@)
                &&& k == WakeupKind::Dispatch ==> (r matches WakeupOutcome::Dispatch(a) && a@ == msg.actor_address@)
            }),
    {
        let last = self.get(&msg.actor_address);
        match last {
            Some(t) => {
                if msg.iteration == 0 {
                    if now_ms.saturating_sub(t) >= window_ms {
                        let _ = self.last_wakeups.remove(&msg.actor_address);
                    } else {
                        return WakeupOutcome::Skip;
                    }
                }
            },
            None => {},
        }
        self.last_wakeups.insert(msg.actor_address.duplicate(), now_ms);
        proof {
            assert(self@ =~= old(self)@.insert(msg.actor_address@, now_ms));
        }
        if !inactive {
            return WakeupOutcome::Requeue(Wakeup { iteration: msg.iteration + 1, actor_address: msg.actor_address });
        }
        WakeupOutcome::Dispatch(msg.actor_address)
    }
}

} // verus!

verus! {

/// Wake-ups are deduplicated: once an actor's wake-up at `t1` was recorded,
/// a new first request for it at `t2`, less than `window_ms` later, is
/// dropped; a request that already went round is never dropped.
pub proof fn lemma_wakeup_deduplicated(
    m: Map<ActorAddressView, u64>,
    a: ActorAddressView,
    t1: u64,
    t2: u64,
    window_ms: u64,
    iteration: usize,
    inactive: bool,
)
    requires
        t1 <= t2,
        t2 - t1 < window_ms,
    ensures
        wakeup_kind(last_wakeup(m.insert(a, t1), a), 0, t2, window_ms, inactive) == WakeupKind::Skip,
        iteration > 0 ==> wakeup_kind(last_wakeup(m, a), iteration, t2, window_ms, inactive) != WakeupKind::Skip,
{
}


/// A wake-up request for an actor that is not inactive is never dispatched:
/// unless it is dropped as a duplicate, it goes round again, whatever its
/// iteration; one for an inactive actor never goes round.
pub proof fn lemma_active_actor_requeued(
    last: Option<u64>,
    iteration: usize,
    now_ms: u64,
    window_ms: u64,
    inactive: bool,
)
    ensures
        !inactive ==> wakeup_kind(last, iteration, now_ms, window_ms, inactive) != WakeupKind::Dispatch,
        !inactive && wakeup_kind(last, iteration, now_ms, window_ms, inactive) != WakeupKind::Skip
            ==> wakeup_kind(last, iteration, now_ms, window_ms, inactive) == WakeupKind::Requeue,
        inactive ==> wakeup_kind(last, iteration, now_ms, window_ms, inactive) != WakeupKind::Requeue,
        iteration > 0 ==> wakeup_kind(last, iteration, now_ms, window_ms, inactive) == (if inactive {
            WakeupKind::Dispatch
        } else {
            WakeupKind::Requeue
        }),
{
}

} // verus!
