use vstd::prelude::*;

verus! {

/// A message to be forwarded by a router to one of its targets.
pub struct RouterMessage<M> {
    pub msg: M,
}

impl<M> RouterMessage<M> {
    pub fn new(msg: M) -> (m: Self)
        ensures
            m.msg == msg,
    {
        Self { msg }
    }
}

} // verus!
