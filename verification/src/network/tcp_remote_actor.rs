use vstd::prelude::*;
use crate::actor::actor_result::ActorResult;

verus! {

/// The answer a TCP remote actor writes to each request.
pub open spec fn tcp_remote_response() -> Seq<char> {
    "HTTP/1.1 200 OK\r\n\r\n<h1>SERS</h1>"@
}

/// Answers requests that arrive on TCP connections.
pub struct TcpRemoteActor {}

impl TcpRemoteActor {
    pub fn new() -> (a: Self) {
        Self {}
    }

    /// The actor ignores that the system stops: it only stops when its
    /// manager stops it, so that open connections are not dropped.
    pub fn on_system_stop(&mut self) -> (r: ActorResult)
        ensures
            r == ActorResult::Continue,
    {
        ActorResult::Continue
    }

    /// The answer to write to the connection of a request.
    pub fn response(&self) -> (r: &'static str)
        ensures
            r@ == tcp_remote_response(),
    {
        proof {
            reveal_strlit("HTTP/1.1 200 OK\r\n\r\n<h1>SERS</h1>");
        }
        "HTTP/1.1 200 OK\r\n\r\n<h1>SERS</h1>"
    }
}

/// Creates [`TcpRemoteActor`]s.
pub struct TcpRemoteActorFactory {}

impl TcpRemoteActorFactory {
    pub fn new() -> (f: Self) {
        Self {}
    }

    pub fn new_actor(&mut self) -> (a: TcpRemoteActor) {
        TcpRemoteActor::new()
    }
}

} // verus!
