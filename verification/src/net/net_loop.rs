use vstd::prelude::*;
use crate::net::net_manager::{
    classify_token, keeps_accepted_stream, next_stream_token, should_stop_polling, stream_event, token_kind,
    ListenerPlan, StreamEvent, TokenKind,
};

verus! {

/// The bookkeeping of a network manager's poll loop: which accepted streams
/// are open, which token the next one gets, and when the last datagram came.
pub struct NetLoop {
    num_tcp_listeners: usize,
    num_total_listeners: usize,
    next_token: usize,
    streams: Vec<usize>,
    last_udp_ms: u64,
    on_stop_udp_timeout_ms: u64,
}

/// Abstract state of a [`NetLoop`].
pub struct NetLoopView {
    pub num_tcp_listeners: nat,
    pub num_total_listeners: nat,
    pub next_token: nat,
    pub streams: Set<usize>,
    pub last_udp_ms: u64,
    pub on_stop_udp_timeout_ms: u64,
}

/// What the poll loop does on an event.
#[derive(Debug, Clone, Copy, PartialEq, Eq, Structural)]
pub enum NetAction {
    /// stop polling: the manager stops and nothing is left to drain
    Stop,
    /// accept the connections waiting at the TCP listener of the token
    Accept,
    /// receive a datagram at the UDP socket of the token
    ReceiveDatagram,
    /// the stream of this token is gone: the workers are told
    RemoveStream(usize),
    /// read a request from the stream of this token
    ReadStream(usize),
    /// nothing to do
    Ignore,
}

/// Milliseconds from `last` to `now`, none where `now` is earlier.
pub open spec fn idle_ms(last: u64, now: u64) -> int {
    if now >= last {
        now - last
    } else {
        0
    }
}

/// Whether a loop in state `s` stops polling at time `now`, while the
/// manager is `stopping` or not.
pub open spec fn stops_polling(s: NetLoopView, stopping: bool, now: u64) -> bool {
    &&& stopping
    &&& s.streams == Set::<usize>::empty()
    &&& idle_ms(s.last_udp_ms, now) > s.on_stop_udp_timeout_ms
}

impl View for NetLoop {
    type V = NetLoopView;

    closed spec fn view(&self) -> NetLoopView {
        NetLoopView {
            num_tcp_listeners: self.num_tcp_listeners as nat,
            num_total_listeners: self.num_total_listeners as nat,
            next_token: self.next_token as nat,
            streams: Set::new(|t: usize| self.streams@.contains(t)),
            last_udp_ms: self.last_udp_ms,
            on_stop_udp_timeout_ms: self.on_stop_udp_timeout_ms,
        }
    }
}

/// The index of `t` in `v`, where it is there.
fn position_of_token(v: &Vec<usize>, t: usize) -> (r: Option<usize>)
    ensures
        match r {
            Some(i) => i < v@.len() && v@[i as int] == t,
            None => !v@.contains(t),
        },
{
    let mut i: usize = 0;
    while i < v.len()
        invariant
            i <= v@.len(),
            forall|j: int| 0 <= j < i ==> v@[j] != t,
        decreases v@.len() - i,
    {
        if v[i] == t {
            return Some(i);
        }
        i = i + 1;
    }
    None
}

impl NetLoop {
    /// Open streams have distinct tokens, all below the next one.
    #[verifier::type_invariant]
    spec fn inv(&self) -> bool {
        &&& self.streams@.no_duplicates()
        &&& forall|i: int| 0 <= i < self.streams@.len() ==> #[trigger] self.streams@[i] < self.next_token
    }

    /// The loop after the listeners of `plan` were opened at time `now_ms`:
    /// no stream is open yet.
    pub fn new(plan: &ListenerPlan, now_ms: u64, on_stop_udp_timeout_ms: u64) -> (l: Self)
        ensures
            l@.num_tcp_listeners == plan.num_tcp_listeners,
            l@.num_total_listeners == plan.num_total_listeners,
            l@.next_token == plan.next_token,
            l@.streams == Set::<usize>::empty(),
            l@.last_udp_ms == now_ms,
            l@.on_stop_udp_timeout_ms == on_stop_udp_timeout_ms,
    {
        let l = NetLoop {
            num_tcp_listeners: plan.num_tcp_listeners,
            num_total_listeners: plan.num_total_listeners,
            next_token: plan.next_token,
            streams: Vec::new(),
            last_udp_ms: now_ms,
            on_stop_udp_timeout_ms,
        };
        assert(l@.streams =~= Set::<usize>::empty());
        l
    }

    /// The number of open streams.
    pub fn num_streams(&self) -> (n: usize)
        ensures
            (n == 0) == (self@.streams == Set::<usize>::empty()),
    {
        let n = self.streams.len();
        if n > 0 {
            assert(self@.streams.contains(self.streams@[0]));
        } else {
            assert(self@.streams =~= Set::<usize>::empty());
        }
        n
    }

    /// The token that the next accepted stream gets.
    pub fn next_token(&self) -> (t: usize)
        ensures
            t == self@.next_token,
    {
        self.next_token
    }

    /// Handles an event of `token` at time `now_ms`: first stops polling
    /// where the manager stops and nothing is left (see [`stops_polling`]);
    /// else a listener's event accepts, a UDP socket's event receives, and a
    /// stream's event removes the stream (closed, or readable but unknown),
    /// reads it (known and readable) or does nothing.
    pub fn on_event(&mut self, token: usize, closed: bool, readable: bool, stopping: bool, now_ms: u64) -> (a: NetAction)
        ensures
            stops_polling(old(self)@, stopping, now_ms) ==> a == NetAction::Stop && final(self)@ == old(self)@,
            !stops_polling(old(self)@, stopping, now_ms) ==> {
                let kind = token_kind(token as int, old(self)@.num_tcp_listeners as int,
                    old(self)@.num_total_listeners as int);
                &&& kind == TokenKind::TcpListener ==> a == NetAction::Accept && final(self)@ == old(self)@
                &&& kind == TokenKind::UdpSocket ==> a == NetAction::ReceiveDatagram && final(self)@ == old(self)@
                &&& kind == TokenKind::Stream ==> {
                    let known = old(self)@.streams.contains(token);
                    &&& (closed || (readable && !known)) ==> a == NetAction::RemoveStream(token)
                        && final(self)@ == (NetLoopView { streams: old(self)@.streams.remove(token), ..old(self)@ })
                    &&& (!closed && readable && known) ==> a == NetAction::ReadStream(token)
                        && final(self)@ == old(self)@
                    &&& (!closed && !readable) ==> a == NetAction::Ignore && final(self)@ == old(self)@
                }
            },
    {
        proof {
            use_type_invariant(&*self);
        }
        let open = self.num_streams();
        let idle = now_ms.saturating_sub(self.last_udp_ms);
        if should_stop_polling(stopping, open, idle, self.on_stop_udp_timeout_ms) {
            return NetAction::Stop;
        }
        match classify_token(token, self.num_tcp_listeners, self.num_total_listeners) {
            TokenKind::TcpListener => NetAction::Accept,
            TokenKind::UdpSocket => NetAction::ReceiveDatagram,
            TokenKind::Stream => {
                let pos = position_of_token(&self.streams, token);
                let known = pos.is_some();
                match stream_event(closed, readable, known) {
                    StreamEvent::Remove => {
                        if let Some(i) = pos {
                            let ghost before = self.streams@;
                            let mut s: Vec<usize> = Vec::new();
                            std::mem::swap(&mut s, &mut self.streams);
                            s.remove(i);
                            proof {
                                assert forall|j: int, k: int| 0 <= j < k < s@.len() implies s@[j] != s@[k] by {
                                    let jj = if j < i { j } else { j + 1 };
                                    let kk = if k < i { k } else { k + 1 };
                                    assert(s@[j] == before[jj]);
                                    assert(s@[k] == before[kk]);
                                }
                                assert forall|j: int| 0 <= j < s@.len() implies #[trigger] s@[j] < self.next_token by {
                                    let jj = if j < i { j } else { j + 1 };
                                    assert(s@[j] == before[jj]);
                                }
                                assert(Set::new(|t: usize| s@.contains(t)) =~= Set::new(|t: usize| before.contains(t)).remove(token)) by {
                                    assert forall|t: usize| s@.contains(t) implies before.contains(t) && t != token by {
                                        let j = choose|j: int| 0 <= j < s@.len() && s@[j] == t;
                                        let jj = if j < i { j } else { j + 1 };
                                        assert(s@[j] == before[jj]);
                                    }
                                    assert forall|t: usize| before.contains(t) && t != token implies s@.contains(t) by {
                                        let jj = choose|jj: int| 0 <= jj < before.len() && before[jj] == t;
                                        let j = if jj < i { jj } else { jj - 1 };
                                        assert(s@[j] == t);
                                    }
                                }
                            }
                            self.streams = s;
                        } else {
                            assert(Set::new(|t: usize| self.streams@.contains(t)) =~= Set::new(
                                |t: usize| self.streams@.contains(t),
                            ).remove(token));
                        }
                        NetAction::RemoveStream(token)
                    },
                    StreamEvent::Read => NetAction::ReadStream(token),
                    StreamEvent::Ignore => NetAction::Ignore,
                }
            },
        }
    }

    /// Handles a connection accepted at a TCP listener: while the manager
    /// stops it is refused (`None`: shut it down); else it gets the next
    /// token, which no open stream has, and is open from now on.
    pub fn on_accepted(&mut self, stopping: bool) -> (r: Option<usize>)
        requires
            !stopping ==> old(self)@.next_token < usize::MAX,
        ensures
            stopping ==> r is None && final(self)@ == old(self)@,
            !stopping ==> {
                let t = old(self)@.next_token;
                &&& r == Some(t as usize)
                &&& !old(self)@.streams.contains(t as usize)
                &&& final(self)@ == (NetLoopView {
                    streams: old(self)@.streams.insert(t as usize),
                    next_token: if t + 1 < old(self)@.num_total_listeners { old(self)@.num_total_listeners } else { t + 1 },
                    ..old(self)@
                })
                &&& final(self)@.next_token > t
            },
    {
        proof {
            use_type_invariant(&*self);
        }
        if !keeps_accepted_stream(stopping) {
            return None;
        }
        let t = self.next_token;
        let ghost before = self.streams@;
        assert(!before.contains(t)) by {
            if before.contains(t) {
                let j = choose|j: int| 0 <= j < before.len() && before[j] == t;
                assert(before[j] < self.next_token);
            }
        }
        let mut s: Vec<usize> = Vec::new();
        std::mem::swap(&mut s, &mut self.streams);
        s.push(t);
        self.next_token = next_stream_token(t, self.num_total_listeners);
        proof {
            assert forall|j: int, k: int| 0 <= j < k < s@.len() implies s@[j] != s@[k] by {
                if k == s@.len() - 1 {
                    assert(s@[j] == before[j]);
                } else {
                    assert(s@[j] == before[j]);
                    assert(s@[k] == before[k]);
                }
            }
            assert forall|j: int| 0 <= j < s@.len() implies #[trigger] s@[j] < self.next_token by {
                if j < before.len() {
                    assert(s@[j] == before[j]);
                }
            }
            assert(Set::new(|x: usize| s@.contains(x)) =~= Set::new(|x: usize| before.contains(x)).insert(t)) by {
                assert forall|x: usize| s@.contains(x) implies before.contains(x) || x == t by {
                    let j = choose|j: int| 0 <= j < s@.len() && s@[j] == x;
                    if j < before.len() {
                        assert(s@[j] == before[j]);
                    }
                }
                assert forall|x: usize| before.contains(x) || x == t implies s@.contains(x) by {
                    if x == t {
                        assert(s@[before.len() as int] == t);
                    } else {
                        let j = choose|j: int| 0 <= j < before.len() && before[j] == x;
                        assert(s@[j] == x);
                    }
                }
            }
        }
        self.streams = s;
        Some(t)
    }

    /// Notes that a datagram came at time `now_ms`.
    pub fn on_datagram(&mut self, now_ms: u64)
        ensures
            final(self)@ == (NetLoopView { last_udp_ms: now_ms, ..old(self)@ }),
    {
        proof {
            use_type_invariant(&*self);
        }
        self.last_udp_ms = now_ms;
    }
}

} // verus!
