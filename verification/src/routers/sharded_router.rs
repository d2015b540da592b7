use vstd::prelude::*;
use vstd::multiset::Multiset;
use std::collections::HashMap;
use hashring::HashRing;
use crate::actor::actor_result::ActorResult;
use crate::routers::add_actor_message::AddActorMessage;
use crate::routers::bulk_router_message::{bulk_chunk, split_bulk, BulkRouterMessage};
use crate::routers::hash_ring::{ring_add, ring_entries, ring_get, ring_key, ring_new, ring_nodes, ring_pick, ring_remove};
use crate::routers::remove_actor_message::RemoveActorMessage;
use crate::routers::route_decision::{
    drops_only_stopped, first_with_address, lemma_drop_one, lemma_drops_nothing, position_of_address,
    without_address, RouteDecision, TargetStatus,
};
use crate::wrapper::actor_wrapper::Routee;

verus! {

broadcast use vstd::std_specs::hash::group_hash_axioms, vstd::multiset::group_multiset_axioms;

/// Routes each message by its hash, through a consistent-hashing ring of
/// target indices.
pub struct ShardedRouter<T> {
    num_shards: usize,
    route_to: Vec<T>,
    hash_ring: HashRing<usize>,
    sharding: HashMap<usize, T>,
    can_route: bool,
    stop_on_system_stop: bool,
    stop_on_empty_targets: bool,
}

/// Abstract state of a [`ShardedRouter`].
pub struct ShardedRouterView<T> {
    pub num_shards: nat,
    pub route_to: Seq<T>,
    pub ring: Multiset<usize>,
    /// the ring's entries, each with the key it is filed under
    pub entries: Multiset<(u64, usize)>,
    /// the target index that the ring answers for each hash
    pub picks: spec_fn(u64) -> Option<usize>,
    pub sharding: Map<usize, T>,
    pub can_route: bool,
    pub stop_on_system_stop: bool,
    pub stop_on_empty_targets: bool,
}

/// The targets of `ts` that `st` observed running, in order.
pub open spec fn running_targets<T>(ts: Seq<T>, st: Seq<TargetStatus>) -> Seq<T>
    decreases ts.len(),
{
    if ts.len() == 0 || st.len() == 0 {
        Seq::empty()
    } else if st[0].stopped {
        running_targets(ts.drop_first(), st.drop_first())
    } else {
        seq![ts[0]] + running_targets(ts.drop_first(), st.drop_first())
    }
}

/// `ts` without the targets at the indices `dropped`, removed one after the
/// other (each index counts in what is left by the ones before).
pub open spec fn without_indices<T>(ts: Seq<T>, dropped: Seq<usize>) -> Seq<T>
    decreases dropped.len(),
{
    if dropped.len() == 0 {
        ts
    } else {
        without_indices(ts, dropped.drop_last()).remove(dropped.last() as int)
    }
}

/// `entries` without one copy of each of `removed`, removed one after the
/// other.
pub open spec fn entries_without(entries: Multiset<(u64, usize)>, removed: Seq<(u64, usize)>) -> Multiset<(u64, usize)>
    decreases removed.len(),
{
    if removed.len() == 0 {
        entries
    } else {
        entries_without(entries, removed.drop_last()).remove(removed.last())
    }
}

/// The targets at the indices `dropped` left `ts` and, for each, one ring
/// entry filed under that index's key left the ring entries.
pub open spec fn dropped_with_entries<T>(
    ts: Seq<T>,
    ts2: Seq<T>,
    entries: Multiset<(u64, usize)>,
    entries2: Multiset<(u64, usize)>,
    dropped: Seq<usize>,
    removed: Seq<(u64, usize)>,
) -> bool {
    &&& dropped.len() == removed.len()
    &&& ts2 == without_indices(ts, dropped)
    &&& entries2 == entries_without(entries, removed)
    &&& forall|j: int| 0 <= j < dropped.len() ==> (#[trigger] removed[j]).0 == ring_key(dropped[j])
}

/// One entry filed under `key` left the entries where there was one; none
/// left where there was none.
pub open spec fn keyed_entry_left(entries: Multiset<(u64, usize)>, entries2: Multiset<(u64, usize)>, key: u64) -> bool {
    &&& (exists|m: usize| #[trigger] entries.contains((key, m))) ==> exists|m: usize|
        entries.contains((key, m)) && entries2 == #[trigger] entries.remove((key, m))
    &&& !(exists|m: usize| #[trigger] entries.contains((key, m))) ==> entries2 == entries
}

/// The ring's answer names a target that was observed running.
pub open spec fn picks_running(pick: Option<usize>, st: Seq<TargetStatus>) -> bool {
    pick matches Some(i) && i < st.len() && !st[i as int].stopped
}

/// The ring lost at most one entry per dropped target, and gained none.
pub open spec fn ring_shrunk_by(old_ring: Multiset<usize>, new_ring: Multiset<usize>, dropped: int) -> bool {
    &&& new_ring.subset_of(old_ring)
    &&& old_ring.len() - new_ring.len() <= dropped
}

/// Creates a [`ShardedRouter`] for an actor system.
pub struct ShardedRouterFactory {
    /// whether the router stops itself when the system stops
    stop_on_system_stop: bool,
    /// whether the router stops itself once it dropped its last (stopped) target
    stop_on_empty_targets: bool,
}

impl View for ShardedRouterFactory {
    /// (stop on system stop, stop on empty targets)
    type V = (bool, bool);

    closed spec fn view(&self) -> (bool, bool) {
        (self.stop_on_system_stop, self.stop_on_empty_targets)
    }
}

impl ShardedRouterFactory {
    pub fn new(stop_on_system_stop: bool, stop_on_empty_targets: bool) -> (f: Self)
        ensures
            f@ == (stop_on_system_stop, stop_on_empty_targets),
    {
        Self { stop_on_system_stop, stop_on_empty_targets }
    }

    /// The router that this factory creates.
    pub fn new_actor<T>(&mut self) -> (r: ShardedRouter<T>)
        ensures
            r@.num_shards == 0,
            r@.route_to.len() == 0,
            r@.ring.len() == 0,
            r@.sharding.len() == 0,
            !r@.can_route,
            r@.stop_on_system_stop == old(self)@.0,
            r@.stop_on_empty_targets == old(self)@.1,
            final(self)@ == old(self)@,
    {
        ShardedRouter::new(self.stop_on_system_stop, self.stop_on_empty_targets)
    }
}

impl<T> View for ShardedRouter<T> {
    type V = ShardedRouterView<T>;

    closed spec fn view(&self) -> ShardedRouterView<T> {
        ShardedRouterView {
            num_shards: self.num_shards as nat,
            route_to: self.route_to@,
            ring: ring_nodes(self.hash_ring),
            entries: ring_entries(self.hash_ring),
            picks: |k: u64| ring_pick(self.hash_ring, k),
            sharding: self.sharding@,
            can_route: self.can_route,
            stop_on_system_stop: self.stop_on_system_stop,
            stop_on_empty_targets: self.stop_on_empty_targets,
        }
    }
}

impl<T> ShardedRouter<T> {
    pub fn new(stop_on_system_stop: bool, stop_on_empty_targets: bool) -> (r: Self)
        ensures
            r@.num_shards == 0,
            r@.route_to.len() == 0,
            r@.ring.len() == 0,
            r@.sharding.len() == 0,
            !r@.can_route,
            r@.stop_on_system_stop == stop_on_system_stop,
            r@.stop_on_empty_targets == stop_on_empty_targets,
    {
        Self {
            num_shards: 0,
            route_to: Vec::new(),
            hash_ring: ring_new(),
            sharding: HashMap::new(),
            can_route: false,
            stop_on_system_stop,
            stop_on_empty_targets,
        }
    }

    /// The target at index `i`.
    pub fn get_target(&self, i: usize) -> (t: &T)
        requires
            i < self@.route_to.len(),
        ensures
            *t == self@.route_to[i as int],
    {
        &self.route_to[i]
    }

    /// The number of targets.
    pub fn num_targets(&self) -> (n: usize)
        ensures
            n == self@.route_to.len(),
    {
        self.route_to.len()
    }

    /// Whether the router asks to be stopped when the system stops.
    pub fn stops_on_system_stop(&self) -> (r: bool)
        ensures
            r == self@.stop_on_system_stop,
    {
        self.stop_on_system_stop
    }

    /// Adds a target at the end and puts its index on the ring.
    pub fn handle_add_actor(&mut self, msg: AddActorMessage<T>) -> (r: ActorResult)
        ensures
            r == ActorResult::Continue,
            final(self)@ == (ShardedRouterView {
                route_to: old(self)@.route_to.push(msg.actor),
                ring: old(self)@.ring.insert(old(self)@.route_to.len() as usize),
                entries: old(self)@.entries.insert((ring_key(old(self)@.route_to.len() as usize), old(self)@.route_to.len() as usize)),
                picks: final(self)@.picks,
                can_route: true,
                ..old(self)@
            }),
    {
        ring_add(&mut self.hash_ring, self.route_to.len());
        self.route_to.push(msg.actor);
        self.can_route = true;
        ActorResult::Continue
    }

    /// Routes a message of hash `hash`, given what was observed of each
    /// target: asks the ring for a target index; a stopped target is dropped
    /// (with one ring entry) and the ring is asked again.
    pub fn handle_message(&mut self, hash: u64, status: Vec<TargetStatus>) -> (r: RouteDecision)
        requires
            status@.len() == old(self)@.route_to.len(),
        ensures
            final(self)@.num_shards == old(self)@.num_shards,
            final(self)@.sharding == old(self)@.sharding,
            final(self)@.stop_on_system_stop == old(self)@.stop_on_system_stop,
            final(self)@.stop_on_empty_targets == old(self)@.stop_on_empty_targets,
            !old(self)@.can_route ==> r == RouteDecision::Drop && final(self)@ == old(self)@,
            old(self)@.can_route ==> exists|keep: Seq<int>|
                #![trigger drops_only_stopped(keep, old(self)@.route_to, status@, final(self)@.route_to)]
            {
                &&& drops_only_stopped(keep, old(self)@.route_to, status@, final(self)@.route_to)
                &&& (r matches RouteDecision::Forward(i) ==> !status@[keep[i as int]].stopped)
            },
            ring_shrunk_by(old(self)@.ring, final(self)@.ring,
                old(self)@.route_to.len() - final(self)@.route_to.len()),
            old(self)@.ring.len() - final(self)@.ring.len() == old(self)@.route_to.len() - final(self)@.route_to.len(),
            exists|dropped: Seq<usize>, removed: Seq<(u64, usize)>|
                #[trigger] dropped_with_entries(old(self)@.route_to, final(self)@.route_to, old(self)@.entries,
                    final(self)@.entries, dropped, removed),
            r is ForwardToAll ==> false,
            r matches RouteDecision::Forward(i) ==> {
                &&& i < final(self)@.route_to.len()
                &&& final(self)@.ring.contains(i)
                &&& final(self)@.can_route
                &&& (final(self)@.picks)(hash) == Some(i)
            },
            r is StopRouter ==> final(self)@.route_to.len() == 0 && old(self)@.stop_on_empty_targets,
            (r is Drop && old(self)@.can_route) ==> {
                ||| (final(self)@.picks)(hash) is None
                ||| (final(self)@.picks)(hash)->0 >= final(self)@.route_to.len()
                ||| (final(self)@.route_to.len() == 0 && !old(self)@.stop_on_empty_targets && !final(self)@.can_route)
            },
            old(self)@.can_route && picks_running((old(self)@.picks)(hash), status@) ==> {
                &&& r == RouteDecision::Forward((old(self)@.picks)(hash)->0)
                &&& final(self)@ == old(self)@
            },
            final(self)@.can_route ==> old(self)@.can_route,
    {
        if !self.can_route {
            assert(dropped_with_entries(self@.route_to, self@.route_to, self@.entries, self@.entries,
                Seq::<usize>::empty(), Seq::<(u64, usize)>::empty()));
            return RouteDecision::Drop;
        }
        let mut obs = status;
        let ghost st0 = obs@;
        let ghost ts0 = self.route_to@;
        let ghost ring0 = ring_nodes(self.hash_ring);
        let ghost pick0 = ring_pick(self.hash_ring, hash);
        let ghost first_runs = picks_running(pick0, st0);
        let ghost mut keep = lemma_drops_nothing(ts0, st0);
        proof {
            assert(forall|i: int| #![trigger obs@[i]] 0 <= i < obs@.len() ==> obs@[i] == st0[keep[i]]);
        }
        let mut decision = RouteDecision::Drop;
        let ghost mut dropped: Seq<usize> = Seq::empty();
        let ghost mut removed: Seq<(u64, usize)> = Seq::empty();
        let ghost entries0 = ring_entries(self.hash_ring);
        loop
            invariant_except_break
                self.can_route,
            invariant
                dropped_with_entries(ts0, self.route_to@, entries0, ring_entries(self.hash_ring), dropped, removed),
                entries0 == old(self)@.entries,
                obs@.len() == self.route_to@.len(),
                drops_only_stopped(keep, ts0, st0, self.route_to@),
                forall|i: int| #![trigger obs@[i]] 0 <= i < obs@.len() ==> obs@[i] == st0[keep[i]],
                ring_shrunk_by(ring0, ring_nodes(self.hash_ring), ts0.len() - self.route_to@.len()),
                ring0.len() - ring_nodes(self.hash_ring).len() == ts0.len() - self.route_to@.len(),
                ts0 == old(self)@.route_to,
                old(self)@.can_route,
                st0 == status@,
                ring0 == old(self)@.ring,
                self.num_shards == old(self).num_shards,
                self.sharding@ == old(self)@.sharding,
                self.stop_on_system_stop == old(self).stop_on_system_stop,
                self.stop_on_empty_targets == old(self).stop_on_empty_targets,
                st0.len() == ts0.len(),
                pick0 == ring_pick(old(self).hash_ring, hash),
                first_runs == picks_running(pick0, st0),
                first_runs ==> self.hash_ring == old(self).hash_ring && self.route_to@ == ts0 && obs@ == st0,
            ensures
                decision matches RouteDecision::Forward(i) ==> {
                    &&& i < self.route_to@.len()
                    &&& ring_nodes(self.hash_ring).contains(i)
                    &&& self.can_route
                    &&& !st0[keep[i as int]].stopped
                    &&& ring_pick(self.hash_ring, hash) == Some(i)
                },
                decision is StopRouter ==> self.route_to@.len() == 0 && self.stop_on_empty_targets,
                decision is Drop ==> {
                    ||| ring_pick(self.hash_ring, hash) is None
                    ||| ring_pick(self.hash_ring, hash)->0 >= self.route_to@.len()
                    ||| (self.route_to@.len() == 0 && !self.stop_on_empty_targets && !self.can_route)
                },
                decision is Drop ==> self.can_route || (self.route_to@.len() == 0 && !self.stop_on_empty_targets),
                first_runs ==> decision == RouteDecision::Forward(pick0->0) && self.hash_ring == old(self).hash_ring
                    && self.route_to@ == ts0,
                !(decision is ForwardToAll),
            decreases self.route_to@.len(),
        {
            let target_id = ring_get(&self.hash_ring, hash);
            match target_id {
                None => {
                    decision = RouteDecision::Drop;
                    break;
                },
                Some(id) => {
                    if id >= self.route_to.len() {
                        decision = RouteDecision::Drop;
                        break;
                    }
                    if !obs[id].stopped {
                        assert(obs@[id as int] == st0[keep[id as int]]);
                        decision = RouteDecision::Forward(id);
                        break;
                    }
                    assert(!first_runs);
                    let ghost old_ring = ring_nodes(self.hash_ring);
                    proof {
                        keep = lemma_drop_one(keep, ts0, st0, self.route_to@, obs@, id as int);
                    }
                    let ghost ts_before = self.route_to@;
                    self.route_to.remove(id);
                    obs.remove(id);
                    let ghost entries_before = ring_entries(self.hash_ring);
                    let gone = ring_remove(&mut self.hash_ring, id);
                    assert(gone is Some);
                    proof {
                        let m = gone->0;
                        let d2 = dropped.push(id);
                        let r2 = removed.push((ring_key(id), m));
                        assert(d2.drop_last() =~= dropped);
                        assert(r2.drop_last() =~= removed);
                        assert(without_indices(ts0, d2) == ts_before.remove(id as int));
                        assert(self.route_to@ == ts_before.remove(id as int));
                        assert(entries_without(entries0, r2) == entries_before.remove((ring_key(id), m)));
                        assert forall|j: int| 0 <= j < d2.len() implies (#[trigger] r2[j]).0 == ring_key(d2[j]) by {
                            if j < dropped.len() {
                                assert(r2[j] == removed[j]);
                                assert(d2[j] == dropped[j]);
                            }
                        }
                        dropped = d2;
                        removed = r2;
                    }
                    proof {
                        let new_ring = ring_nodes(self.hash_ring);
                        assert(new_ring.subset_of(ring0)) by {
                            assert forall|v: usize| new_ring.count(v) <= ring0.count(v) by {
                                assert(new_ring.count(v) <= old_ring.count(v));
                                assert(old_ring.count(v) <= ring0.count(v));
                            }
                        }
                    }
                    if self.route_to.len() == 0 {
                        if self.stop_on_empty_targets {
                            decision = RouteDecision::StopRouter;
                            break;
                        }
                        self.can_route = false;
                        decision = RouteDecision::Drop;
                        break;
                    }
                },
            }
        }
        assert(drops_only_stopped(keep, old(self)@.route_to, status@, self@.route_to));
        proof {
            if first_runs {
                assert(self@ == old(self)@);
            }
            assert(dropped_with_entries(old(self)@.route_to, self@.route_to, old(self)@.entries, self@.entries,
                dropped, removed));
        }
        decision
    }

    /// Drops every target observed stopped, keeping the others in order;
    /// `status` follows the targets.
    fn sweep_all(&mut self, status: &mut Vec<TargetStatus>)
        requires
            old(status)@.len() == old(self)@.route_to.len(),
        ensures
            final(self)@ == (ShardedRouterView {
                route_to: running_targets(old(self)@.route_to, old(status)@),
                ..old(self)@
            }),
    {
        let ghost goal = running_targets(self.route_to@, status@);
        let mut i: usize = 0;
        proof {
            assert(self.route_to@.take(0) =~= Seq::<T>::empty());
            assert(self.route_to@.skip(0) =~= self.route_to@);
            assert(status@.skip(0) =~= status@);
        }
        while i < self.route_to.len()
            invariant
                i <= self.route_to@.len(),
                status@.len() == self.route_to@.len(),
                self.route_to@.take(i as int) + running_targets(self.route_to@.skip(i as int), status@.skip(i as int))
                    == goal,
                goal == running_targets(old(self)@.route_to, old(status)@),
                self@ == (ShardedRouterView { route_to: self.route_to@, ..old(self)@ }),
            decreases self.route_to@.len() - i,
        {
            let ghost ts = self.route_to@;
            let ghost st = status@;
            assert(ts.skip(i as int).drop_first() =~= ts.skip(i as int + 1));
            assert(st.skip(i as int).drop_first() =~= st.skip(i as int + 1));
            if status[i].stopped {
                self.route_to.remove(i);
                status.remove(i);
                proof {
                    assert(self.route_to@.take(i as int) =~= ts.take(i as int));
                    assert(self.route_to@.skip(i as int) =~= ts.skip(i as int + 1));
                    assert(status@.skip(i as int) =~= st.skip(i as int + 1));
                }
            } else {
                proof {
                    assert(ts.take(i as int + 1) =~= ts.take(i as int) + seq![ts[i as int]]);
                    assert(ts.take(i as int) + (seq![ts[i as int]] + running_targets(ts.skip(i as int + 1), st.skip(i as int + 1)))
                        =~= ts.take(i as int + 1) + running_targets(ts.skip(i as int + 1), st.skip(i as int + 1)));
                }
                i = i + 1;
            }
        }
        proof {
            assert(self.route_to@.take(i as int) =~= self.route_to@);
            assert(self.route_to@.skip(i as int) =~= Seq::<T>::empty());
        }
    }

    /// Sends a copy to every target, after dropping every target observed
    /// stopped (see [`running_targets`]).
    pub fn handle_send_to_all_targets(&mut self, status: Vec<TargetStatus>) -> (r: RouteDecision)
        requires
            status@.len() == old(self)@.route_to.len(),
        ensures
            !old(self)@.can_route ==> r == RouteDecision::Drop && final(self)@ == old(self)@,
            old(self)@.can_route ==> r == RouteDecision::ForwardToAll && final(self)@ == (ShardedRouterView {
                route_to: running_targets(old(self)@.route_to, status@),
                ..old(self)@
            }),
    {
        if !self.can_route {
            return RouteDecision::Drop;
        }
        let mut status = status;
        self.sweep_all(&mut status);
        RouteDecision::ForwardToAll
    }

    /// Splits `msg.data` among the targets, after dropping every target
    /// observed stopped (see [`running_targets`]): target `j` of the `n` that remain gets the `j`-th
    /// chunk of `data.len() / n` consecutive messages, the last one also the
    /// rest, so that every message is sent exactly once. With no target left
    /// nothing is sent.
    pub fn handle_bulk_router_message<M>(&mut self, msg: BulkRouterMessage<M>, status: Vec<TargetStatus>) -> (r: Vec<(usize, Vec<M>)>)
        requires
            status@.len() == old(self)@.route_to.len(),
        ensures
            !old(self)@.can_route ==> r@.len() == 0 && final(self)@ == old(self)@,
            old(self)@.can_route ==> {
                let remaining = running_targets(old(self)@.route_to, status@);
                let n = remaining.len();
                &&& final(self)@ == (ShardedRouterView { route_to: remaining, ..old(self)@ })
                &&& r@.len() == n
                &&& forall|j: int| #![trigger r@[j]] 0 <= j < n ==> {
                    &&& r@[j].0 == j
                    &&& r@[j].1@ == bulk_chunk(msg.data@, n as int, j)
                }
            },
    {
        let mut out: Vec<(usize, Vec<M>)> = Vec::new();
        if !self.can_route {
            return out;
        }
        let mut status = status;
        self.sweep_all(&mut status);
        let n = self.route_to.len();
        if n == 0 {
            return out;
        }
        let ghost data = msg.data@;
        let mut chunks = split_bulk(msg.data, n);
        let ghost all = chunks@;
        let mut j: usize = 0;
        while j < n
            invariant
                n > 0,
                j <= n,
                all.len() == n,
                forall|k: int| 0 <= k < n ==> (#[trigger] all[k])@ == bulk_chunk(data, n as int, k),
                chunks@ == all.skip(j as int),
                out@.len() == j,
                forall|k: int| #![trigger out@[k]] 0 <= k < j ==> {
                    &&& out@[k].0 == k
                    &&& out@[k].1@ == bulk_chunk(data, n as int, k)
                },
            decreases n - j,
        {
            assert(chunks@[0] == all[j as int]);
            let chunk = chunks.remove(0);
            out.push((j, chunk));
            j = j + 1;
            proof {
                assert(chunks@ =~= all.skip(j as int));
            }
        }
        out
    }

    /// The target of shard `i`.
    pub fn get_shard_target(&self, i: usize) -> (t: Option<&T>)
        ensures
            match t {
                Some(t) => self@.sharding.contains_key(i) && *t == self@.sharding[i],
                None => !self@.sharding.contains_key(i),
            },
    {
        self.sharding.get(&i)
    }
}

impl<T: Routee> ShardedRouter<T> {
    /// Removes the first target with the address of `msg.actor`, and one ring
    /// entry found at its index.
    pub fn handle_remove_actor(&mut self, msg: RemoveActorMessage<T>) -> (r: ActorResult)
        ensures
            r == ActorResult::Continue,
            final(self)@.route_to == without_address(old(self)@.route_to, msg.actor.routee_address()),
            ring_shrunk_by(old(self)@.ring, final(self)@.ring, 1),
            (exists|p: int| first_with_address(old(self)@.route_to, msg.actor.routee_address(), p)
                && old(self)@.ring.contains(p as usize)) ==> exists|n: usize|
                old(self)@.ring.contains(n) && final(self)@.ring == #[trigger] old(self)@.ring.remove(n),
            (forall|i: int| !first_with_address(old(self)@.route_to, msg.actor.routee_address(), i))
                ==> final(self)@.ring == old(self)@.ring && final(self)@.entries == old(self)@.entries,
            forall|p: int| #[trigger] first_with_address(old(self)@.route_to, msg.actor.routee_address(), p)
                ==> keyed_entry_left(old(self)@.entries, final(self)@.entries, ring_key(p as usize)),
            final(self)@.can_route == if final(self)@.route_to.len() == 0 { false } else { old(self)@.can_route },
            final(self)@.num_shards == old(self)@.num_shards,
            final(self)@.sharding == old(self)@.sharding,
            final(self)@.stop_on_system_stop == old(self)@.stop_on_system_stop,
            final(self)@.stop_on_empty_targets == old(self)@.stop_on_empty_targets,
    {
        let a = msg.actor.get_address();
        match position_of_address(&self.route_to, a) {
            Some(pos) => {
                proof {
                    assert forall|k: int| first_with_address(old(self)@.route_to, msg.actor.routee_address(), k) implies k == pos by {
                        crate::routers::route_decision::lemma_first_with_address_unique(
                            old(self)@.route_to, msg.actor.routee_address(), k, pos as int);
                    }
                }
                assert(first_with_address(old(self)@.route_to, msg.actor.routee_address(), pos as int));
                let gone = ring_remove(&mut self.hash_ring, pos);
                proof {
                    let e0 = old(self)@.entries;
                    let e1 = ring_entries(self.hash_ring);
                    if gone is Some {
                        let m = gone->0;
                        assert(e1 == e0.remove((ring_key(pos), m)));
                        assert(e0.contains((ring_key(pos), m)));
                    } else {
                        assert(e1 == e0);
                    }
                    assert(keyed_entry_left(e0, e1, ring_key(pos)));
                    assert((pos as int) as usize == pos);
                }
                self.route_to.remove(pos);
            },
            None => {},
        }
        if self.route_to.len() == 0 {
            self.can_route = false;
        }
        ActorResult::Continue
    }
}

} // verus!

verus! {

/// `ts2` is `ts` with exactly the targets observed stopped dropped: `keep`
/// lists the indices of the targets kept, each observed running.
pub open spec fn keeps_exactly_running<T>(keep: Seq<int>, ts: Seq<T>, st: Seq<TargetStatus>, ts2: Seq<T>) -> bool {
    &&& drops_only_stopped(keep, ts, st, ts2)
    &&& forall|i: int| 0 <= i < keep.len() ==> !st[#[trigger] keep[i]].stopped
}

/// Before a sharded router sends a message to all its targets, or splits a
/// bulk message among them, it drops exactly the targets observed stopped
/// and keeps the others in order.
pub proof fn lemma_running_targets<T>(ts: Seq<T>, st: Seq<TargetStatus>) -> (keep: Seq<int>)
    requires
        st.len() == ts.len(),
    ensures
        keeps_exactly_running(keep, ts, st, running_targets(ts, st)),
    decreases ts.len(),
{
    if ts.len() == 0 {
        let keep = Seq::<int>::empty();
        assert(running_targets(ts, st) =~= Seq::<T>::empty());
        keep
    } else {
        let rest = lemma_running_targets(ts.drop_first(), st.drop_first());
        let shifted = rest.map_values(|k: int| k + 1);
        let r = running_targets(ts.drop_first(), st.drop_first());
        let keep = if st[0].stopped { shifted } else { seq![0int] + shifted };
        assert forall|i: int| 0 <= i < shifted.len() implies #[trigger] shifted[i] == rest[i] + 1 by {}
        if st[0].stopped {
            assert forall|j: int| 0 <= j < ts.len() && !keep.contains(j) implies #[trigger] st[j].stopped by {
                if j > 0 {
                    if rest.contains(j - 1) {
                        let k = choose|k: int| 0 <= k < rest.len() && rest[k] == j - 1;
                        assert(keep[k] == j);
                    }
                    assert(st.drop_first()[j - 1] == st[j]);
                }
            }
        } else {
            assert(running_targets(ts, st) == seq![ts[0]] + r);
            assert forall|j: int| 0 <= j < ts.len() && !keep.contains(j) implies #[trigger] st[j].stopped by {
                if j == 0 {
                    assert(keep[0] == 0);
                } else {
                    if rest.contains(j - 1) {
                        let k = choose|k: int| 0 <= k < rest.len() && rest[k] == j - 1;
                        assert(keep[k + 1] == j);
                    }
                    assert(st.drop_first()[j - 1] == st[j]);
                }
            }
            assert forall|i: int| #![trigger keep[i]] 0 <= i < keep.len()
                implies 0 <= keep[i] < ts.len() && (seq![ts[0]] + r)[i] == ts[keep[i]] by {
                if i > 0 {
                    assert(keep[i] == rest[i - 1] + 1);
                    assert(ts.drop_first()[rest[i - 1]] == ts[rest[i - 1] + 1]);
                }
            }
        }
        assert forall|i: int| 0 <= i < keep.len() implies !st[#[trigger] keep[i]].stopped by {
            if !st[0].stopped && i == 0 {
            } else {
                let i2 = if st[0].stopped { i } else { i - 1 };
                assert(keep[i] == rest[i2] + 1);
                assert(st.drop_first()[rest[i2]] == st[rest[i2] + 1]);
            }
        }
        assert forall|i: int, j: int| 0 <= i < j < keep.len() implies keep[i] < keep[j] by {
            if !st[0].stopped && i == 0 {
                assert(keep[j] == rest[j - 1] + 1);
            } else {
                let d = if st[0].stopped { 0int } else { 1int };
                assert(keep[i] == rest[i - d] + 1);
                assert(keep[j] == rest[j - d] + 1);
            }
        }
        if st[0].stopped {
            assert forall|i: int| #![trigger keep[i]] 0 <= i < keep.len()
                implies 0 <= keep[i] < ts.len() && r[i] == ts[keep[i]] by {
                assert(ts.drop_first()[rest[i]] == ts[rest[i] + 1]);
            }
        }
        keep
    }
}

} // verus!
