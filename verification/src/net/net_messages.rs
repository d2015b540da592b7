use vstd::prelude::*;

verus! {

/// Tells a network worker that the stream `stream_id` was closed.
#[derive(Debug, Clone, Copy, PartialEq, Eq, Hash)]
pub struct RemoveTcpConnection {
    pub stream_id: usize,
}

impl RemoveTcpConnection {
    pub fn new(stream_id: usize) -> (m: Self)
        ensures
            m.stream_id == stream_id,
    {
        Self { stream_id }
    }
}

/// The lines of a request that arrived on stream `stream_id`.
pub struct ReceiveTcpMessage {
    pub stream_id: usize,
    pub request: Vec<String>,
}

impl ReceiveTcpMessage {
    pub fn new(stream_id: usize, request: Vec<String>) -> (m: Self)
        ensures
            m.stream_id == stream_id,
            m.request@ == request@,
    {
        Self { stream_id, request }
    }
}

} // verus!
