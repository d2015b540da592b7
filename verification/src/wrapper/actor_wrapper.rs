use vstd::prelude::*;
use crate::actor::actor_address::{ActorAddress, ActorAddressView};
use crate::wrapper::local_actor_wrapper::local_is_stopped;
use crate::wrapper::remote_actor_wrapper::RemoteActorWrapper;

verus! {

/// Something a router can route to: it has an address.
pub trait Routee {
    spec fn routee_address(&self) -> ActorAddressView;

    fn get_address(&self) -> (a: &ActorAddress)
        ensures
            a@ == self.routee_address(),
    ;
}

/// A handle to an actor: a local handle `L` where the actor lives in this
/// system, or only its address where it lives elsewhere.
pub struct ActorWrapper<L> {
    is_local: bool,
    address: ActorAddress,
    local: Option<L>,
}

impl<L> ActorWrapper<L> {
    pub closed spec fn spec_address(&self) -> ActorAddressView {
        self.address@
    }

    /// The local handle, if operations go to it rather than to the remote side.
    pub closed spec fn spec_local(&self) -> Option<L> {
        if self.is_local && self.local is Some {
            self.local
        } else {
            None
        }
    }

    /// A handle to an actor of this system.
    pub fn new(local: L, address: ActorAddress) -> (w: Self)
        ensures
            w.spec_address() == address@,
            w.spec_local() == Some(local),
    {
        Self { is_local: true, address, local: Some(local) }
    }

    /// A handle to an actor that lives on another system.
    pub fn new_remote(address: ActorAddress) -> (w: Self)
        ensures
            w.spec_address() == address@,
            w.spec_local() is None,
    {
        Self { is_local: false, address, local: None }
    }

    /// The local handle that operations go to, or `None` where they go to the
    /// remote side.
    pub fn local_target(&self) -> (r: Option<&L>)
        ensures
            match r {
                Some(l) => self.spec_local() == Some(*l),
                None => self.spec_local() is None,
            },
    {
        if self.is_local && self.local.is_some() {
            self.local.as_ref()
        } else {
            None
        }
    }

    /// Whether the actor behind this wrapper stopped, given what its local
    /// mailbox shows: a local actor once its mailbox is stopped and empty
    /// (every queued message handled); a remote actor never.
    pub fn is_stopped_given(&self, mailbox_size: usize, mailbox_stopped: bool) -> (r: bool)
        ensures
            r == (self.spec_local() is Some && mailbox_size == 0 && mailbox_stopped),
    {
        if self.is_local && self.local.is_some() {
            local_is_stopped(mailbox_size, mailbox_stopped)
        } else {
            RemoteActorWrapper::new().is_stopped()
        }
    }
}

impl<L> Routee for ActorWrapper<L> {
    open spec fn routee_address(&self) -> ActorAddressView {
        self.spec_address()
    }

    fn get_address(&self) -> (a: &ActorAddress) {
        &self.address
    }
}

} // verus!
