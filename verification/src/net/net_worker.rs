use vstd::prelude::*;
use vstd::string::*;
use std::collections::HashMap;
use crate::net::net_messages::{ReceiveTcpMessage, RemoveTcpConnection};

verus! {

broadcast use vstd::std_specs::hash::group_hash_axioms;

/// The request line that asks to keep a connection open.
pub open spec fn keep_alive_line() -> Seq<char> {
    "Connection: Keep-Alive"@
}

/// Whether one of the lines of `request` asks to keep the connection open.
pub open spec fn asks_keep_alive(request: Seq<String>) -> bool {
    exists|i: int| 0 <= i < request.len() && request[i]@ == keep_alive_line()
}

/// The answer that a worker writes to a stream for each request.
pub open spec fn http_reply() -> Seq<char> {
    "HTTP/1.1 200 OK\nContent-Type: text/html\nConnection: keep-alive\nContent-Length: 12\r\n\r\nHELLO-WORLD!"@
}

/// The answer that a worker writes to a stream, as [`http_reply`] says.
pub fn http_reply_text() -> (r: &'static str)
    ensures
        r@ == http_reply(),
        r@.len() > 15,
        r@.subrange(0, 15) == "HTTP/1.1 200 OK"@,
        r@.subrange(r@.len() - 16, r@.len() as int) == "\r\n\r\nHELLO-WORLD!"@,
{
    proof {
        lemma_http_reply_is_success();
    }
    "HTTP/1.1 200 OK\nContent-Type: text/html\nConnection: keep-alive\nContent-Length: 12\r\n\r\nHELLO-WORLD!"
}

/// The reply is a success: its status line is `HTTP/1.1 200 OK`, and its
/// body, after the blank line that ends the headers, is the 12 characters
/// `HELLO-WORLD!` that its `Content-Length` announces.
pub proof fn lemma_http_reply_is_success()
    ensures
        http_reply().len() > 15,
        http_reply().subrange(0, 15) == "HTTP/1.1 200 OK"@,
        http_reply().subrange(http_reply().len() - 16, http_reply().len() as int) == "\r\n\r\nHELLO-WORLD!"@,
{
    reveal_strlit("HTTP/1.1 200 OK\nContent-Type: text/html\nConnection: keep-alive\nContent-Length: 12\r\n\r\nHELLO-WORLD!");
    reveal_strlit("HTTP/1.1 200 OK");
    reveal_strlit("\r\n\r\nHELLO-WORLD!");
    assert(http_reply().subrange(0, 15) =~= "HTTP/1.1 200 OK"@);
    assert(http_reply().subrange(http_reply().len() - 16, http_reply().len() as int) =~= "\r\n\r\nHELLO-WORLD!"@);
}

/// How a worker answers a request that arrived on a stream.
#[derive(Debug, Clone, Copy, PartialEq, Eq, Structural)]
pub enum TcpReply {
    /// the stream is gone: no answer
    StreamMissing,
    /// answer on the stream, then shut it down where `shutdown` is set
    Reply { shutdown: bool },
}

/// Serves the connections of a cluster node: the open TCP streams (handles
/// `S`) and the UDP sockets (handles `U`), each by its id.
pub struct NetWorker<S, U> {
    streams: HashMap<usize, S>,
    sockets: HashMap<usize, U>,
}

/// Abstract state of a [`NetWorker`].
pub struct NetWorkerView<S, U> {
    pub streams: Map<usize, S>,
    pub sockets: Map<usize, U>,
}

impl<S, U> View for NetWorker<S, U> {
    type V = NetWorkerView<S, U>;

    closed spec fn view(&self) -> NetWorkerView<S, U> {
        NetWorkerView { streams: self.streams@, sockets: self.sockets@ }
    }
}

/// Whether `request` holds the keep-alive line.
pub fn requests_keep_alive(request: &Vec<String>) -> (r: bool)
    ensures
        r == asks_keep_alive(request@),
{
    let keep_alive = String::from_str("Connection: Keep-Alive");
    proof {
        reveal_strlit("Connection: Keep-Alive");
    }
    let mut i: usize = 0;
    while i < request.len()
        invariant
            i <= request@.len(),
            keep_alive@ == keep_alive_line(),
            forall|j: int| 0 <= j < i ==> request@[j]@ != keep_alive_line(),
        decreases request@.len() - i,
    {
        if request[i] == keep_alive {
            return true;
        }
        i = i + 1;
    }
    false
}

impl<S, U> NetWorker<S, U> {
    pub fn new() -> (w: Self)
        ensures
            w@.streams == Map::<usize, S>::empty(),
            w@.sockets == Map::<usize, U>::empty(),
    {
        Self { streams: HashMap::new(), sockets: HashMap::new() }
    }

    /// The stream of id `stream_id`, if it is open.
    pub fn get_stream(&self, stream_id: usize) -> (s: Option<&S>)
        ensures
            match s {
                Some(s) => self@.streams.contains_key(stream_id) && *s == self@.streams[stream_id],
                None => !self@.streams.contains_key(stream_id),
            },
    {
        self.streams.get(&stream_id)
    }

    /// The socket of id `socket_id`, if there is one.
    pub fn get_socket(&self, socket_id: usize) -> (s: Option<&U>)
        ensures
            match s {
                Some(s) => self@.sockets.contains_key(socket_id) && *s == self@.sockets[socket_id],
                None => !self@.sockets.contains_key(socket_id),
            },
    {
        self.sockets.get(&socket_id)
    }

    /// Answers a request: on its stream where that is open, shutting the
    /// stream down afterwards unless the request asks to keep it alive.
    pub fn handle_receive_tcp_message(&self, msg: &ReceiveTcpMessage) -> (r: TcpReply)
        ensures
            !self@.streams.contains_key(msg.stream_id) ==> r == TcpReply::StreamMissing,
            self@.streams.contains_key(msg.stream_id) ==> r == (TcpReply::Reply {
                shutdown: !asks_keep_alive(msg.request@),
            }),
    {
        if !self.streams.contains_key(&msg.stream_id) {
            return TcpReply::StreamMissing;
        }
        TcpReply::Reply { shutdown: !requests_keep_alive(&msg.request) }
    }

    /// Takes a new stream; an open stream of the same id is handed back, to
    /// be shut down.
    pub fn handle_add_tcp_connection(&mut self, stream_id: usize, stream: S) -> (replaced: Option<S>)
        ensures
            final(self)@.streams == old(self)@.streams.insert(stream_id, stream),
            final(self)@.sockets == old(self)@.sockets,
            match replaced {
                Some(s) => old(self)@.streams.contains_key(stream_id) && s == old(self)@.streams[stream_id],
                None => !old(self)@.streams.contains_key(stream_id),
            },
    {
        self.streams.insert(stream_id, stream)
    }

    /// Forgets a closed stream.
    pub fn handle_remove_tcp_connection(&mut self, msg: RemoveTcpConnection)
        ensures
            final(self)@.streams == old(self)@.streams.remove(msg.stream_id),
            final(self)@.sockets == old(self)@.sockets,
    {
        let _ = self.streams.remove(&msg.stream_id);
    }

    /// Takes a new socket; a socket of the same id is handed back.
    pub fn handle_add_udp_socket(&mut self, socket_id: usize, socket: U) -> (replaced: Option<U>)
        ensures
            final(self)@.sockets == old(self)@.sockets.insert(socket_id, socket),
            final(self)@.streams == old(self)@.streams,
            match replaced {
                Some(s) => old(self)@.sockets.contains_key(socket_id) && s == old(self)@.sockets[socket_id],
                None => !old(self)@.sockets.contains_key(socket_id),
            },
    {
        self.sockets.insert(socket_id, socket)
    }
}

/// Creates [`NetWorker`]s.
#[derive(Clone, Copy)]
pub struct NetWorkerFactory {}

impl NetWorkerFactory {
    pub fn new() -> (f: Self) {
        Self {}
    }

    pub fn new_actor<S, U>(&mut self) -> (w: NetWorker<S, U>)
        ensures
            w@.streams == Map::<usize, S>::empty(),
            w@.sockets == Map::<usize, U>::empty(),
    {
        NetWorker::new()
    }
}

} // verus!

verus! {

/// Taking a stream under a new id and forgetting it again leaves the worker
/// as it was.
pub proof fn lemma_add_then_remove_stream<S, U>(v: NetWorkerView<S, U>, stream_id: usize, stream: S)
    requires
        !v.streams.contains_key(stream_id),
    ensures
        v.streams.insert(stream_id, stream).remove(stream_id) == v.streams,
{
    assert(v.streams.insert(stream_id, stream).remove(stream_id) =~= v.streams);
}

} // verus!
