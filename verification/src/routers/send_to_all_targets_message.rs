use vstd::prelude::*;

verus! {

/// A message that a router copies to every one of its targets.
pub struct SendToAllTargetsMessage<M> {
    pub msg: M,
}

impl<M> SendToAllTargetsMessage<M> {
    pub fn new(msg: M) -> (m: Self)
        ensures
            m.msg == msg,
    {
        Self { msg }
    }
}

} // verus!
