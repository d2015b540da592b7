use vstd::prelude::*;
use crate::actor::actor_address::{ActorAddress, ActorAddressView};
use crate::wrapper::actor_wrapper::Routee;

verus! {

/// What a router does with a message it received.
#[derive(Debug, Clone, Copy, PartialEq, Eq, Structural)]
pub enum RouteDecision {
    /// the message is dropped and the router keeps running
    Drop,
    /// the message is dropped and the router stops itself
    StopRouter,
    /// the message goes to the target at this index
    Forward(usize),
    /// a copy of the message goes to every target
    ForwardToAll,
}

/// What a router observed of one of its targets just before routing.
#[derive(Debug, Clone, Copy, PartialEq, Eq, Structural)]
pub struct TargetStatus {
    pub stopped: bool,
    pub mailbox_size: usize,
}

/// `ts2` is `ts` with some targets dropped, each of which was observed
/// stopped in `st`; `keep` lists, in order, the indices in `ts` of the targets
/// that remain.
pub open spec fn drops_only_stopped<T>(keep: Seq<int>, ts: Seq<T>, st: Seq<TargetStatus>, ts2: Seq<T>) -> bool {
    &&& ts2.len() == keep.len()
    &&& forall|i: int, j: int| 0 <= i < j < keep.len() ==> keep[i] < keep[j]
    &&& forall|i: int| #![trigger keep[i]] 0 <= i < keep.len() ==> 0 <= keep[i] < ts.len() && ts2[i] == ts[keep[i]]
    &&& forall|j: int| 0 <= j < ts.len() && !keep.contains(j) ==> #[trigger] st[j].stopped
}

/// `ts2`, with the observations `st2`, is what remains of `ts` (observed as
/// `st`) after dropping only targets observed stopped.
pub open spec fn remains_of<T>(keep: Seq<int>, ts: Seq<T>, st: Seq<TargetStatus>, ts2: Seq<T>, st2: Seq<TargetStatus>) -> bool {
    &&& drops_only_stopped(keep, ts, st, ts2)
    &&& st2.len() == ts2.len()
    &&& forall|i: int| #![trigger st2[i]] 0 <= i < st2.len() ==> st2[i] == st[keep[i]]
}

/// The identity: every target is kept.
pub proof fn lemma_drops_nothing<T>(ts: Seq<T>, st: Seq<TargetStatus>) -> (keep: Seq<int>)
    ensures
        drops_only_stopped(keep, ts, st, ts),
        forall|i: int| 0 <= i < keep.len() ==> #[trigger] keep[i] == i,
{
    let keep = Seq::new(ts.len(), |i: int| i);
    assert forall|j: int| 0 <= j < ts.len() && !keep.contains(j) implies #[trigger] st[j].stopped by {
        assert(keep[j] == j);
    }
    keep
}

/// Dropping one more target, observed stopped, from the remaining ones.
pub proof fn lemma_drop_one<T>(
    keep: Seq<int>,
    ts: Seq<T>,
    st: Seq<TargetStatus>,
    ts2: Seq<T>,
    st2: Seq<TargetStatus>,
    p: int,
) -> (keep2: Seq<int>)
    requires
        drops_only_stopped(keep, ts, st, ts2),
        st2.len() == ts2.len(),
        forall|i: int| #![trigger st2[i]] 0 <= i < st2.len() ==> st2[i] == st[keep[i]],
        0 <= p < ts2.len(),
        st2[p].stopped,
    ensures
        drops_only_stopped(keep2, ts, st, ts2.remove(p)),
        forall|i: int| #![trigger st2.remove(p)[i]] 0 <= i < st2.remove(p).len() ==> st2.remove(p)[i] == st[keep2[i]],
        keep2 == keep.remove(p),
{
    let keep2 = keep.remove(p);
    assert forall|j: int| 0 <= j < ts.len() && !keep2.contains(j) implies #[trigger] st[j].stopped by {
        if keep.contains(j) {
            let k = choose|k: int| 0 <= k < keep.len() && keep[k] == j;
            if k == p {
                assert(st2[p] == st[keep[p]]);
            } else if k < p {
                assert(keep2[k] == j);
            } else {
                assert(keep2[k - 1] == j);
            }
        }
    }
    assert forall|i: int| #![trigger st2.remove(p)[i]] 0 <= i < st2.remove(p).len() implies st2.remove(p)[i] == st[keep2[i]] by {
        if i < p {
            assert(st2.remove(p)[i] == st2[i]);
        } else {
            assert(st2.remove(p)[i] == st2[i + 1]);
        }
    }
    keep2
}

/// `i` is the first index of `ts` whose target has address `a`.
pub open spec fn first_with_address<T: Routee>(ts: Seq<T>, a: ActorAddressView, i: int) -> bool {
    &&& 0 <= i < ts.len()
    &&& ts[i].routee_address() == a
    &&& forall|j: int| 0 <= j < i ==> ts[j].routee_address() != a
}

/// `ts` without its first target of address `a`; `ts` itself if there is none.
pub open spec fn without_address<T: Routee>(ts: Seq<T>, a: ActorAddressView) -> Seq<T> {
    if exists|i: int| first_with_address(ts, a, i) {
        ts.remove(choose|i: int| first_with_address(ts, a, i))
    } else {
        ts
    }
}

pub proof fn lemma_first_with_address_unique<T: Routee>(ts: Seq<T>, a: ActorAddressView, i: int, k: int)
    requires
        first_with_address(ts, a, i),
        first_with_address(ts, a, k),
    ensures
        i == k,
{
    if i < k {
        assert(ts[i].routee_address() != a);
    } else if k < i {
        assert(ts[k].routee_address() != a);
    }
}

/// Finds the first target whose address is `a`.
pub fn position_of_address<T: Routee>(ts: &Vec<T>, a: &ActorAddress) -> (r: Option<usize>)
    ensures
        match r {
            Some(i) => first_with_address(ts@, a@, i as int),
            None => forall|j: int| 0 <= j < ts@.len() ==> ts@[j].routee_address() != a@,
        },
{
    let mut i: usize = 0;
    while i < ts.len()
        invariant
            i <= ts@.len(),
            forall|j: int| 0 <= j < i ==> ts@[j].routee_address() != a@,
        decreases ts@.len() - i,
    {
        if ts[i].get_address() == a {
            return Some(i);
        }
        i = i + 1;
    }
    None
}

/// Removes the first target whose address is `a`, if there is one.
pub fn remove_by_address<T: Routee>(ts: &mut Vec<T>, a: &ActorAddress)
    ensures
        final(ts)@ == without_address(old(ts)@, a@),
{
    match position_of_address(ts, a) {
        Some(pos) => {
            proof {
                assert forall|k: int| first_with_address(old(ts)@, a@, k) implies k == pos by {
                    lemma_first_with_address_unique(old(ts)@, a@, k, pos as int);
                }
            }
            ts.remove(pos);
        },
        None => {
            assert(!exists|i: int| first_with_address(old(ts)@, a@, i));
        },
    }
}

} // verus!
