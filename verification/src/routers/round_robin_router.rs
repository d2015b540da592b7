use vstd::prelude::*;
use crate::actor::actor_result::ActorResult;
use crate::routers::add_actor_message::AddActorMessage;
use crate::routers::bulk_router_message::{bulk_chunk, split_bulk, BulkRouterMessage};
use crate::routers::remove_actor_message::RemoveActorMessage;
use crate::routers::route_decision::{remove_by_address, without_address};
use crate::wrapper::actor_wrapper::Routee;

verus! {

/// Routes each message to the next target in turn.
pub struct RoundRobinRouter<T> {
    route_index: usize,
    route_to: Vec<T>,
    can_route: bool,
}

/// Abstract state of a [`RoundRobinRouter`].
pub struct RoundRobinRouterView<T> {
    pub route_index: nat,
    pub route_to: Seq<T>,
    pub can_route: bool,
}

/// The index that follows `idx` among `len` targets.
pub open spec fn rr_next(idx: int, len: int) -> int {
    if idx + 1 >= len {
        0
    } else {
        idx + 1
    }
}

/// The index reached from `idx` after `k` steps among `len` targets.
pub open spec fn rr_iter(idx: int, len: int, k: nat) -> int
    decreases k,
{
    if k == 0 {
        idx
    } else {
        rr_next(rr_iter(idx, len, (k - 1) as nat), len)
    }
}

/// Creates a [`RoundRobinRouter`] for an actor system.
pub struct RoundRobinRouterFactory {}

impl RoundRobinRouterFactory {
    pub fn new() -> (f: Self) {
        Self {}
    }

    /// The router that this factory creates.
    pub fn new_actor<T>(&mut self) -> (r: RoundRobinRouter<T>)
        ensures
            r@.route_index == 0,
            r@.route_to.len() == 0,
            !r@.can_route,
    {
        RoundRobinRouter::new()
    }
}

impl<T> View for RoundRobinRouter<T> {
    type V = RoundRobinRouterView<T>;

    closed spec fn view(&self) -> RoundRobinRouterView<T> {
        RoundRobinRouterView {
            route_index: self.route_index as nat,
            route_to: self.route_to@,
            can_route: self.can_route,
        }
    }
}

impl<T> RoundRobinRouter<T> {
    /// A router that can route has targets, and its index can move on.
    #[verifier::type_invariant]
    spec fn wf(&self) -> bool {
        &&& self.can_route ==> self.route_to@.len() > 0
        &&& self.route_index < usize::MAX
    }

    pub fn new() -> (r: Self)
        ensures
            r@.route_index == 0,
            r@.route_to.len() == 0,
            !r@.can_route,
    {
        Self { route_index: 0, route_to: Vec::new(), can_route: false }
    }

    /// The target at index `i`.
    pub fn get_target(&self, i: usize) -> (t: &T)
        requires
            i < self@.route_to.len(),
        ensures
            *t == self@.route_to[i as int],
    {
        &self.route_to[i]
    }

    /// The number of targets.
    pub fn num_targets(&self) -> (n: usize)
        ensures
            n == self@.route_to.len(),
    {
        self.route_to.len()
    }

    /// Adds a target at the end.
    pub fn handle_add_actor(&mut self, msg: AddActorMessage<T>) -> (r: ActorResult)
        ensures
            r == ActorResult::Continue,
            final(self)@.route_to == old(self)@.route_to.push(msg.actor),
            final(self)@.route_index == old(self)@.route_index,
            final(self)@.can_route,
    {
        proof {
            use_type_invariant(&*self);
        }
        self.can_route = false;
        let mut targets: Vec<T> = Vec::new();
        std::mem::swap(&mut targets, &mut self.route_to);
        targets.push(msg.actor);
        self.route_to = targets;
        self.can_route = true;
        ActorResult::Continue
    }

    /// Routes one message: the index of the target that receives it, or
    /// `None` while there is no target.
    pub fn handle_router_message(&mut self) -> (r: Option<usize>)
        ensures
            final(self)@.route_to == old(self)@.route_to,
            final(self)@.can_route == old(self)@.can_route,
            !old(self)@.can_route ==> r is None && final(self)@.route_index == old(self)@.route_index,
            old(self)@.can_route ==> {
                let i = rr_next(old(self)@.route_index as int, old(self)@.route_to.len() as int);
                &&& r == Some(i as usize)
                &&& final(self)@.route_index == i
                &&& 0 <= i < final(self)@.route_to.len()
            },
    {
        proof {
            use_type_invariant(&*self);
        }
        if !self.can_route {
            return None;
        }
        let next = self.route_index + 1;
        self.route_index = if next >= self.route_to.len() { 0 } else { next };
        Some(self.route_index)
    }

    /// Splits `msg.data` into one chunk for each of the `n` targets, visited
    /// in turn from the next index on: `data.len() / n` consecutive messages
    /// each, the last chunk also taking the rest, so that every message is
    /// sent exactly once (see [`crate::routers::bulk_router_message::lemma_bulk_chunks_partition`]).
    pub fn handle_bulk_router_message<M>(&mut self, msg: BulkRouterMessage<M>) -> (r: Vec<(usize, Vec<M>)>)
        ensures
            final(self)@.route_to == old(self)@.route_to,
            final(self)@.can_route == old(self)@.can_route,
            !old(self)@.can_route ==> r@.len() == 0 && final(self)@.route_index == old(self)@.route_index,
            old(self)@.can_route ==> {
                let n = old(self)@.route_to.len();
                &&& r@.len() == n
                &&& forall|j: int| #![trigger r@[j]] 0 <= j < n ==> {
                    &&& r@[j].0 == rr_iter(old(self)@.route_index as int, n as int, (j + 1) as nat)
                    &&& r@[j].1@ == bulk_chunk(msg.data@, n as int, j)
                }
                &&& final(self)@.route_index == rr_iter(old(self)@.route_index as int, n as int, n)
            },
    {
        proof {
            use_type_invariant(&*self);
        }
        let mut out: Vec<(usize, Vec<M>)> = Vec::new();
        if !self.can_route {
            return out;
        }
        let n = self.route_to.len();
        let ghost data = msg.data@;
        let mut chunks = split_bulk(msg.data, n);
        let ghost all = chunks@;
        let ghost start = self.route_index as int;
        let mut j: usize = 0;
        while j < n
            invariant
                self@.route_to == old(self)@.route_to,
                self@.can_route,
                n == self@.route_to.len(),
                n > 0,
                j <= n,
                all.len() == n,
                forall|k: int| 0 <= k < n ==> (#[trigger] all[k])@ == bulk_chunk(data, n as int, k),
                chunks@ == all.skip(j as int),
                self.route_index == rr_iter(start, n as int, j as nat),
                out@.len() == j,
                forall|k: int| #![trigger out@[k]] 0 <= k < j ==> {
                    &&& out@[k].0 == rr_iter(start, n as int, (k + 1) as nat)
                    &&& out@[k].1@ == bulk_chunk(data, n as int, k)
                },
            decreases n - j,
        {
            proof {
                use_type_invariant(&*self);
            }
            let next = self.route_index + 1;
            self.route_index = if next >= self.route_to.len() { 0 } else { next };
            assert(chunks@[0] == all[j as int]);
            let chunk = chunks.remove(0);
            out.push((self.route_index, chunk));
            j = j + 1;
            proof {
                assert(chunks@ =~= all.skip(j as int));
            }
        }
        out
    }
}

impl<T: Routee> RoundRobinRouter<T> {
    /// Removes the first target with the address of `msg.actor`.
    pub fn handle_remove_actor(&mut self, msg: RemoveActorMessage<T>) -> (r: ActorResult)
        ensures
            r == ActorResult::Continue,
            final(self)@.route_to == without_address(old(self)@.route_to, msg.actor.routee_address()),
            final(self)@.route_index == old(self)@.route_index,
            final(self)@.can_route == (final(self)@.route_to.len() > 0 && old(self)@.can_route),
    {
        proof {
            use_type_invariant(&*self);
        }
        let a = msg.actor.get_address();
        let could_route = self.can_route;
        self.can_route = false;
        let mut targets: Vec<T> = Vec::new();
        std::mem::swap(&mut targets, &mut self.route_to);
        remove_by_address(&mut targets, a);
        let nonempty = targets.len() > 0;
        self.route_to = targets;
        self.can_route = could_route && nonempty;
        proof {
            let old_ts = old(self)@.route_to;
            let a = msg.actor.routee_address();
            if exists|i: int| crate::routers::route_decision::first_with_address(old_ts, a, i) {
                assert(self.route_to@.len() == old_ts.len() - 1);
            }
        }
        ActorResult::Continue
    }
}

} // verus!

verus! {

/// From an index `idx` below `n`, the `k`-th step (`1 <= k <= n`) lands on
/// `s + k - 1`, wrapped once past the end, where `s` is the first step.
pub proof fn lemma_rr_iter_closed_form(idx: int, n: int, k: nat)
    requires
        n > 0,
        0 <= idx,
        1 <= k <= n,
    ensures
        rr_iter(idx, n, k) == (if rr_next(idx, n) + k - 1 < n {
            rr_next(idx, n) + k - 1
        } else {
            rr_next(idx, n) + k - 1 - n
        }),
    decreases k,
{
    if k > 1 {
        lemma_rr_iter_closed_form(idx, n, (k - 1) as nat);
    } else {
        assert(rr_iter(idx, n, 0) == idx);
    }
}

/// Round robin visits every target once per round: among `n` targets, from
/// any index, the first `n` steps land on `n` different valid indices.
pub proof fn lemma_round_robin_round_is_permutation(idx: int, n: int)
    requires
        n > 0,
        0 <= idx,
    ensures
        forall|j: int, k: int|
            1 <= j < k <= n ==> #[trigger] rr_iter(idx, n, j as nat) != #[trigger] rr_iter(idx, n, k as nat),
        forall|j: int| 1 <= j <= n ==> 0 <= #[trigger] rr_iter(idx, n, j as nat) < n,
{
    assert forall|j: int, k: int| 1 <= j < k <= n implies #[trigger] rr_iter(idx, n, j as nat) != #[trigger] rr_iter(idx, n, k as nat) by {
        lemma_rr_iter_closed_form(idx, n, j as nat);
        lemma_rr_iter_closed_form(idx, n, k as nat);
    }
    assert forall|j: int| 1 <= j <= n implies 0 <= #[trigger] rr_iter(idx, n, j as nat) < n by {
        lemma_rr_iter_closed_form(idx, n, j as nat);
    }
}

/// From an index `i` below `n`, the `k`-th of the next `n` messages goes to
/// target `(i + k) % n`.
pub proof fn lemma_rr_round_modulo(i: int, n: int, k: nat)
    requires
        0 <= i < n,
        1 <= k <= n,
    ensures
        rr_iter(i, n, k) == (i + k) % n,
{
    lemma_rr_iter_closed_form(i, n, k);
    if i + k < n {
        assert((i + k) % n == i + k) by (nonlinear_arith) requires 0 <= i + k < n;
    } else {
        assert((i + k) % n == i + k - n) by (nonlinear_arith) requires n <= i + k < 2 * n;
    }
}

} // verus!
