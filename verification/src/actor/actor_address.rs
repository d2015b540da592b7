use vstd::prelude::*;

verus! {

/// Where an actor lives: the remote host, the system, the thread pool and the
/// actor's own name.
#[derive(Debug, Clone, Hash)]
pub struct ActorAddress {
    pub remote: String,
    pub system: String,
    pub pool: String,
    pub actor: String,
}

/// Abstract value of an [`ActorAddress`].
pub struct ActorAddressView {
    pub remote: Seq<char>,
    pub system: Seq<char>,
    pub pool: Seq<char>,
    pub actor: Seq<char>,
}

impl View for ActorAddress {
    type V = ActorAddressView;

    open spec fn view(&self) -> ActorAddressView {
        ActorAddressView {
            remote: self.remote@,
            system: self.system@,
            pool: self.pool@,
            actor: self.actor@,
        }
    }
}

impl ActorAddress {
    pub fn new(remote: String, system: String, pool: String, actor: String) -> (a: Self)
        ensures
            a@ == (ActorAddressView { remote: remote@, system: system@, pool: pool@, actor: actor@ }),
    {
        Self { remote, system, pool, actor }
    }

    /// A copy of the address.
    pub fn duplicate(&self) -> (a: Self)
        ensures
            a@ == self@,
    {
        Self {
            remote: self.remote.clone(),
            system: self.system.clone(),
            pool: self.pool.clone(),
            actor: self.actor.clone(),
        }
    }
}

impl PartialEq for ActorAddress {
    fn eq(&self, other: &Self) -> (r: bool) {
        self.remote == other.remote && self.system == other.system && self.pool == other.pool
            && self.actor == other.actor
    }
}

impl Eq for ActorAddress {}

impl vstd::std_specs::cmp::PartialEqSpecImpl for ActorAddress {
    open spec fn obeys_eq_spec() -> bool {
        true
    }

    open spec fn eq_spec(&self, other: &Self) -> bool {
        self@ == other@
    }
}

} // verus!
