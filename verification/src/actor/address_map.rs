use vstd::prelude::*;
use crate::actor::actor_address::{ActorAddress, ActorAddressView};

verus! {

/// A map from actor addresses to values, each address at most once.
pub struct AddressMap<V> {
    entries: Vec<(ActorAddress, V)>,
}

/// The addresses in `entries`, each once.
pub open spec fn distinct_addresses<V>(entries: Seq<(ActorAddress, V)>) -> bool {
    forall|i: int, j: int| 0 <= i < j < entries.len() ==> entries[i].0@ != entries[j].0@
}

/// The map from address to value that `entries` lists.
pub open spec fn entries_map<V>(entries: Seq<(ActorAddress, V)>) -> Map<ActorAddressView, V>
    decreases entries.len(),
{
    if entries.len() == 0 {
        Map::empty()
    } else {
        entries_map(entries.drop_last()).insert(entries.last().0@, entries.last().1)
    }
}

pub proof fn lemma_entries_map_contains<V>(entries: Seq<(ActorAddress, V)>, i: int)
    requires
        distinct_addresses(entries),
        0 <= i < entries.len(),
    ensures
        entries_map(entries).contains_key(entries[i].0@),
        entries_map(entries)[entries[i].0@] == entries[i].1,
    decreases entries.len(),
{
    if i < entries.len() - 1 {
        lemma_entries_map_contains(entries.drop_last(), i);
    }
}

pub proof fn lemma_entries_map_missing<V>(entries: Seq<(ActorAddress, V)>, a: ActorAddressView)
    requires
        forall|i: int| 0 <= i < entries.len() ==> entries[i].0@ != a,
    ensures
        !entries_map(entries).contains_key(a),
    decreases entries.len(),
{
    if entries.len() > 0 {
        lemma_entries_map_missing(entries.drop_last(), a);
    }
}

pub proof fn lemma_entries_map_update<V>(entries: Seq<(ActorAddress, V)>, i: int, b: ActorAddress, v: V)
    requires
        distinct_addresses(entries),
        0 <= i < entries.len(),
        b@ == entries[i].0@,
    ensures
        entries_map(entries.update(i, (b, v))) == entries_map(entries).insert(b@, v),
    decreases entries.len(),
{
    let e2 = entries.update(i, (b, v));
    if i == entries.len() - 1 {
        assert(e2.drop_last() =~= entries.drop_last());
        lemma_entries_map_missing(entries.drop_last(), entries[i].0@);
        assert(entries_map(e2) =~= entries_map(entries).insert(b@, v));
    } else {
        lemma_entries_map_update(entries.drop_last(), i, b, v);
        assert(e2.drop_last() =~= entries.drop_last().update(i, (b, v)));
        assert(entries_map(e2) =~= entries_map(entries).insert(b@, v));
    }
}

pub proof fn lemma_entries_map_remove<V>(entries: Seq<(ActorAddress, V)>, i: int)
    requires
        distinct_addresses(entries),
        0 <= i < entries.len(),
    ensures
        entries_map(entries.remove(i)) == entries_map(entries).remove(entries[i].0@),
    decreases entries.len(),
{
    let e2 = entries.remove(i);
    if i == entries.len() - 1 {
        assert(e2 =~= entries.drop_last());
        lemma_entries_map_missing(entries.drop_last(), entries[i].0@);
        assert(entries_map(e2) =~= entries_map(entries).remove(entries[i].0@));
    } else {
        lemma_entries_map_remove(entries.drop_last(), i);
        assert(e2.drop_last() =~= entries.drop_last().remove(i));
        assert(e2.last() == entries.last());
        assert(entries.last().0@ != entries[i].0@);
        assert(entries_map(e2) =~= entries_map(entries).remove(entries[i].0@));
    }
}

impl<V> View for AddressMap<V> {
    type V = Map<ActorAddressView, V>;

    closed spec fn view(&self) -> Map<ActorAddressView, V> {
        entries_map(self.entries@)
    }
}

impl<V> AddressMap<V> {
    /// Each address is listed once.
    #[verifier::type_invariant]
    spec fn inv(&self) -> bool {
        distinct_addresses(self.entries@)
    }

    pub fn new() -> (m: Self)
        ensures
            m@ == Map::<ActorAddressView, V>::empty(),
    {
        Self { entries: Vec::new() }
    }

    fn find(&self, a: &ActorAddress) -> (r: Option<usize>)
        ensures
            match r {
                Some(i) => i < self.entries@.len() && self.entries@[i as int].0@ == a@,
                None => forall|i: int| 0 <= i < self.entries@.len() ==> self.entries@[i].0@ != a@,
            },
    {
        let mut i: usize = 0;
        while i < self.entries.len()
            invariant
                i <= self.entries@.len(),
                forall|j: int| 0 <= j < i ==> self.entries@[j].0@ != a@,
            decreases self.entries@.len() - i,
        {
            if self.entries[i].0 == *a {
                return Some(i);
            }
            i = i + 1;
        }
        None
    }

    /// The value of `a`, if it has one.
    pub fn get(&self, a: &ActorAddress) -> (r: Option<&V>)
        ensures
            match r {
                Some(v) => self@.contains_key(a@) && *v == self@[a@],
                None => !self@.contains_key(a@),
            },
    {
        proof {
            use_type_invariant(self);
        }
        match self.find(a) {
            Some(i) => {
                proof {
                    lemma_entries_map_contains(self.entries@, i as int);
                }
                Some(&self.entries[i].1)
            },
            None => {
                proof {
                    lemma_entries_map_missing(self.entries@, a@);
                }
                None
            },
        }
    }

    /// Whether `a` has a value.
    pub fn contains_key(&self, a: &ActorAddress) -> (r: bool)
        ensures
            r == self@.contains_key(a@),
    {
        self.get(a).is_some()
    }

    /// Gives `a` the value `v`.
    pub fn insert(&mut self, a: ActorAddress, v: V)
        ensures
            final(self)@ == old(self)@.insert(a@, v),
    {
        proof {
            use_type_invariant(&*self);
        }
        let found = self.find(&a);
        let ghost old_entries = self.entries@;
        let ghost av = a@;
        let mut es: Vec<(ActorAddress, V)> = Vec::new();
        std::mem::swap(&mut es, &mut self.entries);
        match found {
            Some(i) => {
                proof {
                    lemma_entries_map_update(old_entries, i as int, a, v);
                }
                es.set(i, (a, v));
                proof {
                    assert forall|x: int, y: int| 0 <= x < y < es@.len()
                        implies es@[x].0@ != es@[y].0@ by {
                        assert(old_entries[x].0@ != old_entries[y].0@);
                    }
                }
            },
            None => {
                es.push((a, v));
                proof {
                    assert(es@.drop_last() =~= old_entries);
                    assert forall|x: int, y: int| 0 <= x < y < es@.len()
                        implies es@[x].0@ != es@[y].0@ by {
                        if y < old_entries.len() {
                            assert(old_entries[x].0@ != old_entries[y].0@);
                        } else {
                            assert(old_entries[x].0@ != av);
                        }
                    }
                }
            },
        }
        self.entries = es;
    }

    /// Takes the value of `a` out, if it has one.
    pub fn remove(&mut self, a: &ActorAddress) -> (r: Option<V>)
        ensures
            final(self)@ == old(self)@.remove(a@),
            match r {
                Some(v) => old(self)@.contains_key(a@) && v == old(self)@[a@],
                None => !old(self)@.contains_key(a@),
            },
    {
        proof {
            use_type_invariant(&*self);
        }
        match self.find(a) {
            Some(i) => {
                let ghost old_entries = self.entries@;
                proof {
                    lemma_entries_map_remove(old_entries, i as int);
                    lemma_entries_map_contains(old_entries, i as int);
                }
                let mut es: Vec<(ActorAddress, V)> = Vec::new();
                std::mem::swap(&mut es, &mut self.entries);
                let (_, v) = es.remove(i);
                proof {
                    assert forall|x: int, y: int| 0 <= x < y < es@.len()
                        implies es@[x].0@ != es@[y].0@ by {
                        let xo = if x < i { x } else { x + 1 };
                        let yo = if y < i { y } else { y + 1 };
                        assert(old_entries[xo].0@ != old_entries[yo].0@);
                    }
                }
                self.entries = es;
                Some(v)
            },
            None => {
                proof {
                    lemma_entries_map_missing(self.entries@, a@);
                    assert(self@ =~= old(self)@.remove(a@));
                }
                None
            },
        }
    }

    /// Forgets every value.
    pub fn clear(&mut self)
        ensures
            final(self)@ == Map::<ActorAddressView, V>::empty(),
    {
        self.entries = Vec::new();
    }
}

} // verus!
