use vstd::prelude::*;
use crate::net::net_config::{NetConfig, NetConfigView, NetConnectionType, NetProtocol};

verus! {

/// The server configurations of protocol `p` in `cs`, in order.
pub open spec fn servers_with(cs: Seq<NetConfigView>, p: NetProtocol) -> Seq<NetConfigView>
    decreases cs.len(),
{
    if cs.len() == 0 {
        Seq::empty()
    } else {
        let rest = servers_with(cs.drop_last(), p);
        if cs.last().protocol == p && cs.last().connection_type == NetConnectionType::SERVER {
            rest.push(cs.last())
        } else {
            rest
        }
    }
}

/// The listeners a network manager opens, in token order: the TCP servers,
/// then the UDP servers, each in the order given. Clients get no listener.
pub open spec fn listener_order(cs: Seq<NetConfigView>) -> Seq<NetConfigView> {
    servers_with(cs, NetProtocol::TCP) + servers_with(cs, NetProtocol::UDP)
}

/// Which listeners to open: the one at index `t` gets token `t`.
pub struct ListenerPlan {
    pub listeners: Vec<NetConfig>,
    /// tokens below this belong to TCP listeners
    pub num_tcp_listeners: usize,
    /// tokens below this (and not below `num_tcp_listeners`) belong to UDP
    /// sockets; it counts every configuration, clients too
    pub num_total_listeners: usize,
    /// the token that the first accepted stream gets
    pub next_token: usize,
}

/// What an event token stands for.
#[derive(Debug, Clone, Copy, PartialEq, Eq, Structural)]
pub enum TokenKind {
    TcpListener,
    UdpSocket,
    Stream,
}

fn collect_servers(cs: &Vec<NetConfig>, p: NetProtocol, out: &mut Vec<NetConfig>)
    ensures
        final(out)@.map_values(|c: NetConfig| c@) == old(out)@.map_values(|c: NetConfig| c@)
            + servers_with(cs@.map_values(|c: NetConfig| c@), p),
{
    let ghost start = out@.map_values(|c: NetConfig| c@);
    let ghost views = cs@.map_values(|c: NetConfig| c@);
    let mut i: usize = 0;
    while i < cs.len()
        invariant
            i <= cs@.len(),
            views == cs@.map_values(|c: NetConfig| c@),
            out@.map_values(|c: NetConfig| c@) == start + servers_with(views.take(i as int), p),
        decreases cs@.len() - i,
    {
        proof {
            assert(views.take(i as int + 1).drop_last() =~= views.take(i as int));
            assert(views.take(i as int + 1).last() == cs@[i as int]@);
        }
        if cs[i].protocol == p && cs[i].connection_type == NetConnectionType::SERVER {
            let ghost before = out@;
            let c = cs[i].duplicate();
            out.push(c);
            proof {
                assert(out@.map_values(|c: NetConfig| c@) =~= before.map_values(|c: NetConfig| c@).push(c@));
                assert(views[i as int] == cs@[i as int]@);
                assert(out@.map_values(|c: NetConfig| c@) =~= start + servers_with(views.take(i as int + 1), p));
            }
        } else {
            proof {
                assert(out@.map_values(|c: NetConfig| c@) =~= start + servers_with(views.take(i as int + 1), p));
            }
        }
        i = i + 1;
    }
    assert(views.take(cs@.len() as int) =~= views);
}

/// Plans the listeners for `net_configs`: TCP servers first, then UDP
/// servers, tokens counted from 0.
pub fn plan_listeners(net_configs: &Vec<NetConfig>) -> (plan: ListenerPlan)
    ensures
        plan.listeners@.map_values(|c: NetConfig| c@) == listener_order(net_configs@.map_values(|c: NetConfig| c@)),
        plan.num_tcp_listeners == servers_with(net_configs@.map_values(|c: NetConfig| c@), NetProtocol::TCP).len(),
        plan.num_total_listeners == net_configs@.len(),
        plan.next_token == plan.listeners@.len(),
{
    let mut listeners: Vec<NetConfig> = Vec::new();
    collect_servers(net_configs, NetProtocol::TCP, &mut listeners);
    let num_tcp_listeners = listeners.len();
    collect_servers(net_configs, NetProtocol::UDP, &mut listeners);
    proof {
        let e = Seq::<NetConfig>::empty().map_values(|c: NetConfig| c@);
        assert(e =~= Seq::empty());
        assert(listeners@.map_values(|c: NetConfig| c@).len() == listeners@.len());
    }
    let next_token = listeners.len();
    ListenerPlan { listeners, num_tcp_listeners, num_total_listeners: net_configs.len(), next_token }
}

/// What the event `token` stands for, given the two token bounds.
pub open spec fn token_kind(token: int, num_tcp_listeners: int, num_total_listeners: int) -> TokenKind {
    if token < num_tcp_listeners {
        TokenKind::TcpListener
    } else if token < num_total_listeners {
        TokenKind::UdpSocket
    } else {
        TokenKind::Stream
    }
}

/// What the event `token` stands for.
pub fn classify_token(token: usize, num_tcp_listeners: usize, num_total_listeners: usize) -> (k: TokenKind)
    ensures
        k == token_kind(token as int, num_tcp_listeners as int, num_total_listeners as int),
{
    if token < num_tcp_listeners {
        TokenKind::TcpListener
    } else if token < num_total_listeners {
        TokenKind::UdpSocket
    } else {
        TokenKind::Stream
    }
}

/// The token for the stream accepted after the one of token `token`: the
/// next one, but not below `num_total_listeners`.
pub fn next_stream_token(token: usize, num_total_listeners: usize) -> (next: usize)
    requires
        token < usize::MAX,
    ensures
        next == if token + 1 < num_total_listeners { num_total_listeners as int } else { token + 1 },
{
    let next = token + 1;
    if next < num_total_listeners {
        num_total_listeners
    } else {
        next
    }
}

/// Whether a stopping manager stops polling: no stream is open and no UDP
/// message came for longer than the timeout.
pub fn should_stop_polling(is_stopping: bool, open_streams: usize, udp_idle_ms: u64, on_stop_udp_timeout_ms: u64) -> (r: bool)
    ensures
        r == (is_stopping && open_streams == 0 && udp_idle_ms > on_stop_udp_timeout_ms),
{
    is_stopping && open_streams == 0 && udp_idle_ms > on_stop_udp_timeout_ms
}

/// What the manager does on an event of an accepted stream.
#[derive(Debug, Clone, Copy, PartialEq, Eq, Structural)]
pub enum StreamEvent {
    /// forget the stream and tell the workers it is gone
    Remove,
    /// read the request from the stream
    Read,
    /// nothing to do
    Ignore,
}

/// The action on a stream event: a stream closed for reading or writing, or
/// readable but unknown, is removed; a known readable stream is read.
pub fn stream_event(closed: bool, readable: bool, known: bool) -> (e: StreamEvent)
    ensures
        e == if closed {
            StreamEvent::Remove
        } else if readable && !known {
            StreamEvent::Remove
        } else if readable {
            StreamEvent::Read
        } else {
            StreamEvent::Ignore
        },
{
    if closed {
        StreamEvent::Remove
    } else if readable && !known {
        StreamEvent::Remove
    } else if readable {
        StreamEvent::Read
    } else {
        StreamEvent::Ignore
    }
}

/// Whether a connection accepted now is kept: not while the manager stops,
/// when it is shut down at once.
pub fn keeps_accepted_stream(is_stopping: bool) -> (keep: bool)
    ensures
        keep == !is_stopping,
{
    !is_stopping
}

/// Whether the lines read from a stream are a request to hand to the
/// workers: only where there is at least one.
pub fn forwards_request(request: &Vec<String>) -> (forward: bool)
    ensures
        forward == (request@.len() > 0),
{
    request.len() > 0
}

/// The number of pauses a graceful stop is split into.
pub const GRACEFUL_STOP_ITERATIONS: u32 = 10;

/// One pause of a graceful stop of `graceful_nanos` nanoseconds.
pub fn graceful_stop_pause_nanos(graceful_nanos: u128) -> (r: u128)
    ensures
        r == graceful_nanos / 10,
{
    graceful_nanos / 10
}

} // verus!

verus! {

proof fn lemma_servers_with_bounds(cs: Seq<NetConfigView>, p: NetProtocol)
    ensures
        servers_with(cs, p).len() <= cs.len(),
        forall|i: int| 0 <= i < servers_with(cs, p).len() ==> {
            &&& #[trigger] servers_with(cs, p)[i].protocol == p
            &&& servers_with(cs, p)[i].connection_type == NetConnectionType::SERVER
        },
    decreases cs.len(),
{
    if cs.len() > 0 {
        lemma_servers_with_bounds(cs.drop_last(), p);
    }
}

proof fn lemma_servers_disjoint_count(cs: Seq<NetConfigView>)
    ensures
        servers_with(cs, NetProtocol::TCP).len() + servers_with(cs, NetProtocol::UDP).len() <= cs.len(),
    decreases cs.len(),
{
    if cs.len() > 0 {
        lemma_servers_disjoint_count(cs.drop_last());
    }
}

/// The tokens of the planned listeners tell their kind: those below the
/// number of TCP listeners are TCP servers, the others UDP servers, all of
/// them below the number of configurations; and a stream token, however it
/// was counted on, is never taken for a listener.
pub proof fn lemma_listener_tokens(cs: Seq<NetConfigView>, t: int, token: int)
    requires
        0 <= t < listener_order(cs).len(),
        0 <= token,
    ensures
        token_kind(t, servers_with(cs, NetProtocol::TCP).len() as int, cs.len() as int) == (
        if listener_order(cs)[t].protocol == NetProtocol::TCP {
            TokenKind::TcpListener
        } else {
            TokenKind::UdpSocket
        }),
        listener_order(cs)[t].connection_type == NetConnectionType::SERVER,
        token_kind(
            if token + 1 < cs.len() { cs.len() as int } else { token + 1 },
            servers_with(cs, NetProtocol::TCP).len() as int,
            cs.len() as int,
        ) == TokenKind::Stream,
{
    let tcp = servers_with(cs, NetProtocol::TCP);
    let udp = servers_with(cs, NetProtocol::UDP);
    lemma_servers_with_bounds(cs, NetProtocol::TCP);
    lemma_servers_with_bounds(cs, NetProtocol::UDP);
    lemma_servers_disjoint_count(cs);
    if t < tcp.len() {
        assert(listener_order(cs)[t] == tcp[t]);
    } else {
        assert(listener_order(cs)[t] == udp[t - tcp.len()]);
    }
}

} // verus!

verus! {

/// The token of the `k`-th stream accepted after the first, which got
/// `first`, where the tokens below `n` belong to listeners.
pub open spec fn stream_token(first: int, n: int, k: nat) -> int
    decreases k,
{
    if k == 0 {
        first
    } else {
        let t = stream_token(first, n, (k - 1) as nat);
        if t + 1 < n { n } else { t + 1 }
    }
}

/// Accepted streams get distinct tokens: each stream's token is above the
/// one before, and from the second stream on no token is below `n`, the
/// number of configurations, so none is taken for a listener or a socket.
pub proof fn lemma_stream_tokens(first: int, n: int, j: nat, k: nat)
    requires
        j < k,
    ensures
        stream_token(first, n, j) < stream_token(first, n, k),
        stream_token(first, n, k) >= n,
        forall|num_tcp: int| num_tcp <= n ==> #[trigger] token_kind(stream_token(first, n, k), num_tcp, n)
            == TokenKind::Stream,
    decreases k,
{
    if j < k - 1 {
        lemma_stream_tokens(first, n, j, (k - 1) as nat);
    }
}

} // verus!
