use vstd::prelude::*;
use vstd::multiset::Multiset;
use hashring::HashRing;

verus! {

#[verifier::external_type_specification]
#[verifier::external_body]
#[verifier::reject_recursive_types(T)]
#[verifier::reject_recursive_types(S)]
pub struct ExHashRing<T, S>(HashRing<T, S>);

#[verifier::external_type_specification]
#[verifier::external_body]
pub struct ExDefaultHashBuilder(hashring::DefaultHashBuilder);

/// The nodes that a consistent-hashing ring holds, one entry per `add`.
pub uninterp spec fn ring_nodes(ring: HashRing<usize>) -> Multiset<usize>;

/// The entries of a ring, each with the key it is sorted by: one entry per
/// `add`, the node's hash key beside the node.
pub uninterp spec fn ring_entries(ring: HashRing<usize>) -> Multiset<(u64, usize)>;

/// The key that a ring files `node` under: its hash under the ring's
/// default hasher, a SipHash with fixed keys, so it depends on the node
/// alone.
pub uninterp spec fn ring_key(node: usize) -> u64;

/// The node that a ring answers for `key`. The ring keeps its entries
/// sorted by the hash of each node under a hasher with fixed keys, and
/// answers the first entry whose hash is not below the hash of `key` (the
/// first entry where there is none), so the answer is fixed by the ring and
/// the key alone.
pub uninterp spec fn ring_pick(ring: HashRing<usize>, key: u64) -> Option<usize>;

/// `HashRing::new`: claims that the new ring holds no node and no entry.
#[verifier::external_body]
pub(crate) fn ring_new() -> (r: HashRing<usize>)
    ensures
        ring_nodes(r) == Multiset::<usize>::empty(),
        ring_entries(r) == Multiset::<(u64, usize)>::empty(),
{
    HashRing::new()
}

/// `HashRing::add`: claims that the ring holds one more entry of `node`,
/// filed under the node's key.
#[verifier::external_body]
pub(crate) fn ring_add(ring: &mut HashRing<usize>, node: usize)
    ensures
        ring_nodes(*final(ring)) == ring_nodes(*old(ring)).insert(node),
        ring_entries(*final(ring)) == ring_entries(*old(ring)).insert((ring_key(node), node)),
{
    ring.add(node)
}

/// `HashRing::remove`: claims that the ring searches its entries for the key
/// of `node`: where an entry with that key is there, one such entry is
/// removed and its node returned (which is `node` itself unless two nodes'
/// keys collide); where none is, nothing is returned and the ring is
/// unchanged.
#[verifier::external_body]
pub(crate) fn ring_remove(ring: &mut HashRing<usize>, node: usize) -> (r: Option<usize>)
    ensures
        ring_nodes(*old(ring)).contains(node) ==> r is Some,
        r is Some <==> exists|m: usize| #[trigger] ring_entries(*old(ring)).contains((ring_key(node), m)),
        match r {
            Some(n) => {
                &&& ring_nodes(*old(ring)).contains(n)
                &&& ring_nodes(*final(ring)) == ring_nodes(*old(ring)).remove(n)
                &&& ring_entries(*old(ring)).contains((ring_key(node), n))
                &&& ring_entries(*final(ring)) == ring_entries(*old(ring)).remove((ring_key(node), n))
            },
            None => {
                &&& ring_nodes(*final(ring)) == ring_nodes(*old(ring))
                &&& ring_entries(*final(ring)) == ring_entries(*old(ring))
            },
        },
{
    ring.remove(&node)
}

/// `HashRing::get`: claims that the answer is the ring's pick for `key`
/// ([`ring_pick`]), that a node is returned exactly when the ring is not
/// empty, and that it is a node on the ring. Which node that is, in terms of
/// the hashes, is left to the name.
#[verifier::external_body]
pub(crate) fn ring_get(ring: &HashRing<usize>, key: u64) -> (r: Option<usize>)
    ensures
        r == ring_pick(*ring, key),
        r is None <==> ring_nodes(*ring).len() == 0,
        match r {
            Some(n) => ring_nodes(*ring).contains(n),
            None => true,
        },
{
    ring.get(&key).copied()
}

} // verus!
