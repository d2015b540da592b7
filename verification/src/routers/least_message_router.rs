use vstd::prelude::*;
use crate::actor::actor_result::ActorResult;
use crate::routers::add_actor_message::AddActorMessage;
use crate::routers::remove_actor_message::RemoveActorMessage;
use crate::routers::round_robin_router::rr_next;
use crate::routers::route_decision::{
    drops_only_stopped, lemma_drop_one, lemma_drops_nothing, remains_of, remove_by_address, without_address,
    RouteDecision, TargetStatus,
};
use crate::wrapper::actor_wrapper::Routee;

verus! {

/// Routes each message to a target whose mailbox holds few messages.
pub struct LeastMessageRouter<T> {
    next_route_index: usize,
    min_mailbox_size: usize,
    route_to: Vec<T>,
    can_route: bool,
    stop_on_system_stop: bool,
    stop_on_empty_targets: bool,
}

/// Abstract state of a [`LeastMessageRouter`].
pub struct LeastMessageRouterView<T> {
    pub next_route_index: nat,
    pub min_mailbox_size: nat,
    pub route_to: Seq<T>,
    pub can_route: bool,
    pub stop_on_system_stop: bool,
    pub stop_on_empty_targets: bool,
}

/// Outcome of dropping stopped targets before routing.
pub enum LmSweep<T> {
    /// the index to look at is past the targets: indexing fails
    Fails,
    /// the last target was dropped and the router stops
    StopsRouter { route_to: Seq<T>, index: int },
    /// the last target was dropped and the router, not set to stop, keeps
    /// running without targets
    Emptied { index: int },
    /// the target at `index` is running
    Ready { route_to: Seq<T>, status: Seq<TargetStatus>, index: int },
}

/// Starting at `idx`, drops stopped targets one by one; each drop moves the
/// index on (to 0 once it reaches the second to last position).
pub open spec fn lm_sweep<T>(ts: Seq<T>, st: Seq<TargetStatus>, idx: int, stop_on_empty: bool) -> LmSweep<T>
    decreases ts.len(),
{
    if idx < 0 || idx >= ts.len() || idx >= st.len() {
        LmSweep::Fails
    } else if st[idx].stopped {
        let next = if idx + 1 >= ts.len() - 1 { 0 } else { idx + 1 };
        let ts2 = ts.remove(idx);
        if ts2.len() == 0 && stop_on_empty {
            LmSweep::StopsRouter { route_to: ts2, index: next }
        } else if ts2.len() == 0 {
            LmSweep::Emptied { index: next }
        } else {
            lm_sweep(ts2, st.remove(idx), next, stop_on_empty)
        }
    } else {
        LmSweep::Ready { route_to: ts, status: st, index: idx }
    }
}

/// Starting from target `best`, scans targets `i..` and keeps the one with the
/// smallest mailbox, until the kept mailbox holds at most `min` messages.
pub open spec fn lm_scan(st: Seq<TargetStatus>, i: int, best: int, min: int) -> int
    decreases st.len() - i,
{
    if i >= st.len() || i < 0 || st[best].mailbox_size <= min {
        best
    } else if st[i].mailbox_size < st[best].mailbox_size {
        lm_scan(st, i + 1, i, min)
    } else {
        lm_scan(st, i + 1, best, min)
    }
}

/// Creates a [`LeastMessageRouter`] for an actor system.
pub struct LeastMessageRouterFactory {
    /// mailbox size that the next target's mailbox must exceed before other targets are searched
    min_mailbox_size: usize,
    /// whether the router stops itself when the system stops
    stop_on_system_stop: bool,
    /// whether the router stops itself once it dropped its last (stopped) target
    stop_on_empty_targets: bool,
}

impl View for LeastMessageRouterFactory {
    /// (minimum mailbox size, stop on system stop, stop on empty targets)
    type V = (nat, bool, bool);

    closed spec fn view(&self) -> (nat, bool, bool) {
        (self.min_mailbox_size as nat, self.stop_on_system_stop, self.stop_on_empty_targets)
    }
}

impl LeastMessageRouterFactory {
    pub fn new(min_mailbox_size: usize, stop_on_system_stop: bool, stop_on_empty_targets: bool) -> (f: Self)
        ensures
            f@ == (min_mailbox_size as nat, stop_on_system_stop, stop_on_empty_targets),
    {
        Self { min_mailbox_size, stop_on_system_stop, stop_on_empty_targets }
    }

    /// The router that this factory creates.
    pub fn new_actor<T>(&mut self) -> (r: LeastMessageRouter<T>)
        ensures
            r@.next_route_index == 0,
            r@.min_mailbox_size == old(self)@.0,
            r@.route_to.len() == 0,
            !r@.can_route,
            r@.stop_on_system_stop == old(self)@.1,
            r@.stop_on_empty_targets == old(self)@.2,
            final(self)@ == old(self)@,
    {
        LeastMessageRouter::new(self.min_mailbox_size, self.stop_on_system_stop, self.stop_on_empty_targets)
    }
}

impl<T> View for LeastMessageRouter<T> {
    type V = LeastMessageRouterView<T>;

    closed spec fn view(&self) -> LeastMessageRouterView<T> {
        LeastMessageRouterView {
            next_route_index: self.next_route_index as nat,
            min_mailbox_size: self.min_mailbox_size as nat,
            route_to: self.route_to@,
            can_route: self.can_route,
            stop_on_system_stop: self.stop_on_system_stop,
            stop_on_empty_targets: self.stop_on_empty_targets,
        }
    }
}

impl<T> LeastMessageRouter<T> {
    pub fn new(min_mailbox_size: usize, stop_on_system_stop: bool, stop_on_empty_targets: bool) -> (r: Self)
        ensures
            r@.next_route_index == 0,
            r@.min_mailbox_size == min_mailbox_size,
            r@.route_to.len() == 0,
            !r@.can_route,
            r@.stop_on_system_stop == stop_on_system_stop,
            r@.stop_on_empty_targets == stop_on_empty_targets,
    {
        Self {
            next_route_index: 0,
            min_mailbox_size,
            route_to: Vec::new(),
            can_route: false,
            stop_on_system_stop,
            stop_on_empty_targets,
        }
    }

    /// The target at index `i`.
    pub fn get_target(&self, i: usize) -> (t: &T)
        requires
            i < self@.route_to.len(),
        ensures
            *t == self@.route_to[i as int],
    {
        &self.route_to[i]
    }

    /// The number of targets.
    pub fn num_targets(&self) -> (n: usize)
        ensures
            n == self@.route_to.len(),
    {
        self.route_to.len()
    }

    /// Whether the router asks to be stopped when the system stops.
    pub fn stops_on_system_stop(&self) -> (r: bool)
        ensures
            r == self@.stop_on_system_stop,
    {
        self.stop_on_system_stop
    }

    pub fn handle_add_actor(&mut self, msg: AddActorMessage<T>) -> (r: ActorResult)
        ensures
            r == ActorResult::Continue,
            final(self)@ == (LeastMessageRouterView {
                route_to: old(self)@.route_to.push(msg.actor),
                can_route: true,
                ..old(self)@
            }),
    {
        self.route_to.push(msg.actor);
        self.can_route = true;
        ActorResult::Continue
    }

    /// Drops stopped targets from `next_route_index` on, as [`lm_sweep`] says;
    /// the decision where no target is left to route to (`StopRouter`, or
    /// `Drop` for a router that keeps running without targets), `None` where
    /// a running target was reached.
    fn sweep(&mut self, status: &mut Vec<TargetStatus>) -> (done: Option<RouteDecision>)
        requires
            old(status)@.len() == old(self)@.route_to.len(),
            !(lm_sweep(old(self)@.route_to, old(status)@, old(self)@.next_route_index as int,
                old(self)@.stop_on_empty_targets) is Fails),
        ensures
            final(self)@.min_mailbox_size == old(self)@.min_mailbox_size,
            final(self)@.stop_on_system_stop == old(self)@.stop_on_system_stop,
            final(self)@.stop_on_empty_targets == old(self)@.stop_on_empty_targets,
            final(status)@.len() == final(self)@.route_to.len(),
            done is None ==> final(self)@.next_route_index < final(self)@.route_to.len(),
            match lm_sweep(old(self)@.route_to, old(status)@, old(self)@.next_route_index as int,
                old(self)@.stop_on_empty_targets) {
                LmSweep::StopsRouter { route_to, index } => {
                    &&& done == Some(RouteDecision::StopRouter)
                    &&& final(self)@.route_to == route_to
                    &&& final(self)@.next_route_index == index
                    &&& final(self)@.can_route == old(self)@.can_route
                },
                LmSweep::Emptied { index } => {
                    &&& done == Some(RouteDecision::Drop)
                    &&& final(self)@.route_to.len() == 0
                    &&& final(self)@.next_route_index == index
                    &&& !final(self)@.can_route
                },
                LmSweep::Ready { route_to, status: st, index } => {
                    &&& done is None
                    &&& final(self)@.route_to == route_to
                    &&& final(status)@ == st
                    &&& final(self)@.next_route_index == index
                    &&& final(self)@.can_route == old(self)@.can_route
                },
                LmSweep::Fails => false,
            },
    {
        let ghost goal = lm_sweep(self.route_to@, status@, self.next_route_index as int, self.stop_on_empty_targets);
        loop
            invariant
                status@.len() == self.route_to@.len(),
                lm_sweep(self.route_to@, status@, self.next_route_index as int, self.stop_on_empty_targets)
                    == goal,
                !(goal is Fails),
                goal == lm_sweep(old(self)@.route_to, old(status)@, old(self)@.next_route_index as int,
                    old(self)@.stop_on_empty_targets),
                self.min_mailbox_size == old(self).min_mailbox_size,
                self.can_route == old(self).can_route,
                self.stop_on_system_stop == old(self).stop_on_system_stop,
                self.stop_on_empty_targets == old(self).stop_on_empty_targets,
            decreases self.route_to@.len(),
        {
            let route_index = self.next_route_index;
            assert(route_index < self.route_to.len());
            if status[route_index].stopped {
                self.next_route_index = self.next_route_index + 1;
                if self.next_route_index >= self.route_to.len() - 1 {
                    self.next_route_index = 0;
                }
                self.route_to.remove(route_index);
                status.remove(route_index);
                if self.route_to.len() == 0 {
                    if self.stop_on_empty_targets {
                        return Some(RouteDecision::StopRouter);
                    }
                    self.can_route = false;
                    return Some(RouteDecision::Drop);
                }
            } else {
                return None;
            }
        }
    }

    /// Routes one message, given what was observed of each target: drops
    /// stopped targets (see [`lm_sweep`]), then picks a target by mailbox size
    /// (see [`lm_scan`]) and moves the next index on. A router whose targets
    /// all stopped stops itself where it is set to, and otherwise drops the
    /// message and keeps running without targets.
    pub fn handle_message(&mut self, status: Vec<TargetStatus>) -> (r: RouteDecision)
        requires
            status@.len() == old(self)@.route_to.len(),
            old(self)@.can_route ==> !(lm_sweep(old(self)@.route_to, status@,
                old(self)@.next_route_index as int, old(self)@.stop_on_empty_targets) is Fails),
        ensures
            final(self)@.min_mailbox_size == old(self)@.min_mailbox_size,
            final(self)@.stop_on_system_stop == old(self)@.stop_on_system_stop,
            final(self)@.stop_on_empty_targets == old(self)@.stop_on_empty_targets,
            !old(self)@.can_route ==> r == RouteDecision::Drop && final(self)@ == old(self)@,
            old(self)@.can_route ==> match lm_sweep(old(self)@.route_to, status@,
                old(self)@.next_route_index as int, old(self)@.stop_on_empty_targets) {
                LmSweep::StopsRouter { route_to, index } => {
                    &&& r == RouteDecision::StopRouter
                    &&& final(self)@.route_to == route_to
                    &&& final(self)@.next_route_index == index
                    &&& final(self)@.can_route
                },
                LmSweep::Emptied { index } => {
                    &&& r == RouteDecision::Drop
                    &&& final(self)@.route_to.len() == 0
                    &&& final(self)@.next_route_index == index
                    &&& !final(self)@.can_route
                },
                LmSweep::Ready { route_to, status: st, index } => {
                    &&& r == RouteDecision::Forward(lm_scan(st, 0, index, old(self)@.min_mailbox_size as int) as usize)
                    &&& final(self)@.route_to == route_to
                    &&& final(self)@.next_route_index == rr_next(index, route_to.len() as int)
                    &&& final(self)@.can_route
                },
                LmSweep::Fails => false,
            },
    {
        if !self.can_route {
            return RouteDecision::Drop;
        }
        let mut status = status;
        match self.sweep(&mut status) {
            Some(d) => {
                return d;
            },
            None => {},
        }
        let ghost st = status@;
        let mut target = self.next_route_index;
        let mut mailbox_size = status[target].mailbox_size;
        let target_len = self.route_to.len();
        let mut i: usize = 0;
        while i < target_len && mailbox_size > self.min_mailbox_size
            invariant
                target_len == st.len(),
                status@ == st,
                0 <= target < target_len,
                i <= target_len,
                mailbox_size == st[target as int].mailbox_size,
                lm_scan(st, i as int, target as int, self.min_mailbox_size as int)
                    == lm_scan(st, 0, self.next_route_index as int, self.min_mailbox_size as int),
            decreases target_len - i,
        {
            let size = status[i].mailbox_size;
            if size < mailbox_size {
                mailbox_size = size;
                target = i;
            }
            i = i + 1;
        }
        self.next_route_index = self.next_route_index + 1;
        if self.next_route_index >= target_len {
            self.next_route_index = 0;
        }
        RouteDecision::Forward(target)
    }

    /// Sends a copy to every target, after dropping stopped targets as
    /// [`lm_sweep`] says.
    pub fn handle_send_to_all_targets(&mut self, status: Vec<TargetStatus>) -> (r: RouteDecision)
        requires
            status@.len() == old(self)@.route_to.len(),
            old(self)@.can_route ==> !(lm_sweep(old(self)@.route_to, status@,
                old(self)@.next_route_index as int, old(self)@.stop_on_empty_targets) is Fails),
        ensures
            final(self)@.min_mailbox_size == old(self)@.min_mailbox_size,
            final(self)@.stop_on_system_stop == old(self)@.stop_on_system_stop,
            final(self)@.stop_on_empty_targets == old(self)@.stop_on_empty_targets,
            !old(self)@.can_route ==> r == RouteDecision::Drop && final(self)@ == old(self)@,
            old(self)@.can_route ==> match lm_sweep(old(self)@.route_to, status@,
                old(self)@.next_route_index as int, old(self)@.stop_on_empty_targets) {
                LmSweep::StopsRouter { route_to, index } => {
                    &&& r == RouteDecision::StopRouter
                    &&& final(self)@.route_to == route_to
                    &&& final(self)@.next_route_index == index
                    &&& final(self)@.can_route
                },
                LmSweep::Emptied { index } => {
                    &&& r == RouteDecision::Drop
                    &&& final(self)@.route_to.len() == 0
                    &&& final(self)@.next_route_index == index
                    &&& !final(self)@.can_route
                },
                LmSweep::Ready { route_to, status: st, index } => {
                    &&& r == RouteDecision::ForwardToAll
                    &&& final(self)@.route_to == route_to
                    &&& final(self)@.next_route_index == index
                    &&& final(self)@.can_route
                },
                LmSweep::Fails => false,
            },
    {
        if !self.can_route {
            return RouteDecision::Drop;
        }
        let mut status = status;
        match self.sweep(&mut status) {
            Some(d) => d,
            None => RouteDecision::ForwardToAll,
        }
    }
}

impl<T: Routee> LeastMessageRouter<T> {
    /// Removes the first target with the address of `msg.actor`. The next
    /// index stays where it was: where it is then past the remaining targets
    /// of a router that can still route, the next message cannot be routed
    /// ([`lm_sweep`] fails there, as indexing past the targets does).
    pub fn handle_remove_actor(&mut self, msg: RemoveActorMessage<T>) -> (r: ActorResult)
        ensures
            r == ActorResult::Continue,
            final(self)@.next_route_index == old(self)@.next_route_index,
            final(self)@.can_route && final(self)@.next_route_index >= final(self)@.route_to.len() ==> forall|st: Seq<TargetStatus>|
                #[trigger] lm_sweep(final(self)@.route_to, st, final(self)@.next_route_index as int,
                    final(self)@.stop_on_empty_targets) is Fails,
            final(self)@ == (LeastMessageRouterView {
                route_to: without_address(old(self)@.route_to, msg.actor.routee_address()),
                can_route: if final(self)@.route_to.len() == 0 { false } else { old(self)@.can_route },
                ..old(self)@
            }),
    {
        let a = msg.actor.get_address();
        remove_by_address(&mut self.route_to, a);
        if self.route_to.len() == 0 {
            self.can_route = false;
        }
        ActorResult::Continue
    }
}

/// The result of the system-stop hook of a router that was asked to stop
/// itself: `failed` tells whether that request could not be delivered.
pub fn system_stop_result(requested_stop_failed: bool) -> (r: ActorResult)
    ensures
        r == (if requested_stop_failed { ActorResult::Stop } else { ActorResult::Continue }),
{
    if requested_stop_failed {
        ActorResult::Stop
    } else {
        ActorResult::Continue
    }
}

} // verus!

verus! {

/// What a sweep over `ts0`, observed as `st0`, leaves is sound: a ready
/// sweep stops at a running target and keeps what remains of `ts0` after
/// dropping stopped targets only; a sweep that emptied the router dropped
/// stopped targets only.
pub open spec fn lm_sweep_sound<T>(ts0: Seq<T>, st0: Seq<TargetStatus>, r: LmSweep<T>) -> bool {
    match r {
        LmSweep::Ready { route_to, status, index } => {
            &&& 0 <= index < route_to.len()
            &&& index < status.len()
            &&& !status[index].stopped
            &&& exists|keep: Seq<int>| #[trigger] remains_of(keep, ts0, st0, route_to, status)
        },
        LmSweep::StopsRouter { route_to, index } => {
            &&& route_to.len() == 0
            &&& exists|keep: Seq<int>| #[trigger] drops_only_stopped(keep, ts0, st0, route_to)
        },
        LmSweep::Emptied { index } => exists|keep: Seq<int>|
            #[trigger] drops_only_stopped(keep, ts0, st0, Seq::<T>::empty()),
        LmSweep::Fails => true,
    }
}

proof fn lemma_lm_sweep_from<T>(
    ts0: Seq<T>,
    st0: Seq<TargetStatus>,
    keep: Seq<int>,
    ts: Seq<T>,
    st: Seq<TargetStatus>,
    idx: int,
    stop_on_empty: bool,
)
    requires
        remains_of(keep, ts0, st0, ts, st),
    ensures
        lm_sweep_sound(ts0, st0, lm_sweep(ts, st, idx, stop_on_empty)),
    decreases ts.len(),
{
    let r = lm_sweep(ts, st, idx, stop_on_empty);
    if idx < 0 || idx >= ts.len() || idx >= st.len() {
        assert(r is Fails);
    } else if st[idx].stopped {
        let next = if idx + 1 >= ts.len() - 1 { 0 } else { idx + 1 };
        let keep2 = lemma_drop_one(keep, ts0, st0, ts, st, idx);
        let ts2 = ts.remove(idx);
        if ts2.len() == 0 {
            assert(ts2 =~= Seq::<T>::empty());
            assert(drops_only_stopped(keep2, ts0, st0, ts2));
            if stop_on_empty {
                assert(r == LmSweep::StopsRouter { route_to: ts2, index: next });
                assert(r->StopsRouter_route_to == ts2);
            } else {
                assert(r == LmSweep::<T>::Emptied { index: next });
                assert(drops_only_stopped(keep2, ts0, st0, Seq::<T>::empty()));
            }
        } else {
            assert(remains_of(keep2, ts0, st0, ts2, st.remove(idx)));
            lemma_lm_sweep_from(ts0, st0, keep2, ts2, st.remove(idx), next, stop_on_empty);
            assert(r == lm_sweep(ts2, st.remove(idx), next, stop_on_empty));
        }
    } else {
        assert(r == LmSweep::Ready { route_to: ts, status: st, index: idx });
        assert(r->Ready_route_to == ts && r->Ready_status == st);
        assert(remains_of(keep, ts0, st0, r->Ready_route_to, r->Ready_status));
    }
}

/// Before a least-message router routes, it drops only targets that were
/// observed stopped, keeping the others in order; the target it then starts
/// from is running, and a router that stops itself has no target left.
pub proof fn lemma_lm_sweep_drops_only_stopped<T>(ts: Seq<T>, st: Seq<TargetStatus>, idx: int, stop_on_empty: bool)
    requires
        st.len() == ts.len(),
    ensures
        lm_sweep_sound(ts, st, lm_sweep(ts, st, idx, stop_on_empty)),
{
    let keep = lemma_drops_nothing(ts, st);
    assert(remains_of(keep, ts, st, ts, st));
    lemma_lm_sweep_from(ts, st, keep, ts, st, idx, stop_on_empty);
}

proof fn lemma_lm_scan_from(st: Seq<TargetStatus>, i: int, best: int, min: int)
    requires
        0 <= best < st.len(),
        0 <= i <= st.len(),
    ensures
        0 <= lm_scan(st, i, best, min) < st.len(),
        st[lm_scan(st, i, best, min)].mailbox_size <= st[best].mailbox_size,
        st[lm_scan(st, i, best, min)].mailbox_size > min ==> forall|j: int|
            i <= j < st.len() ==> st[lm_scan(st, i, best, min)].mailbox_size <= #[trigger] st[j].mailbox_size,
    decreases st.len() - i,
{
    if i >= st.len() || st[best].mailbox_size <= min {
    } else if st[i].mailbox_size < st[best].mailbox_size {
        lemma_lm_scan_from(st, i + 1, i, min);
    } else {
        lemma_lm_scan_from(st, i + 1, best, min);
    }
}

/// The target that a least-message router picks has a mailbox no larger than
/// the one it started from; where even that mailbox is above the minimum
/// size, no target has a smaller mailbox.
pub proof fn lemma_lm_scan_picks_least(st: Seq<TargetStatus>, start: int, min: int)
    requires
        0 <= start < st.len(),
    ensures
        0 <= lm_scan(st, 0, start, min) < st.len(),
        st[lm_scan(st, 0, start, min)].mailbox_size <= st[start].mailbox_size,
        st[lm_scan(st, 0, start, min)].mailbox_size > min ==> forall|j: int|
            0 <= j < st.len() ==> st[lm_scan(st, 0, start, min)].mailbox_size <= #[trigger] st[j].mailbox_size,
{
    lemma_lm_scan_from(st, 0, start, min);
}

} // verus!
