use tyra::net::net_config::{NetConfig, NetConnectionType, NetProtocol};
use tyra::net::net_loop::{NetAction, NetLoop};
use tyra::net::net_manager::{
    classify_token, graceful_stop_pause_nanos, next_stream_token, plan_listeners, should_stop_polling, TokenKind,
    GRACEFUL_STOP_ITERATIONS,
};
use tyra::net::net_manager::{forwards_request, keeps_accepted_stream, stream_event, StreamEvent};
use tyra::net::net_messages::{ReceiveTcpMessage, RemoveTcpConnection};
use tyra::system::cluster::ClusterStep;
use tyra::net::net_worker::{http_reply_text, requests_keep_alive, NetWorker, NetWorkerFactory, TcpReply};
use tyra::network::network_manager::NetworkManagerFactory;
use tyra::network::tcp_remote_actor::{TcpRemoteActor, TcpRemoteActorFactory};
use tyra::system::cluster::{parse_usize, Cluster, DEFAULT_CLUSTER_PORT};
use tyra::system::config_order::{chars_less, config_less};
use tyra::actor::actor_result::ActorResult;

fn config(protocol: NetProtocol, connection_type: NetConnectionType, host: &str, port: usize) -> NetConfig {
    NetConfig::new(protocol, connection_type, String::from(host), port)
}

#[test]
fn parse_usize_cases() {
    assert_eq!(parse_usize("2022"), Some(2022));
    assert_eq!(parse_usize("+7"), Some(7));
    assert_eq!(parse_usize("0"), Some(0));
    assert_eq!(parse_usize(""), None);
    assert_eq!(parse_usize("+"), None);
    assert_eq!(parse_usize("12a"), None);
    assert_eq!(parse_usize("-1"), None);
    assert_eq!(parse_usize("18446744073709551615"), Some(18446744073709551615));
    assert_eq!(parse_usize("18446744073709551616"), None);
}

#[test]
fn cluster_addresses_become_configs() {
    let hosts = vec![String::from("tcp://127.0.0.1:2022"), String::from("udp://example.org:9000")];
    let configs = Cluster::generate_net_config(&hosts, NetConnectionType::SERVER);
    assert_eq!(
        configs,
        vec![
            config(NetProtocol::TCP, NetConnectionType::SERVER, "127.0.0.1", 2022),
            config(NetProtocol::UDP, NetConnectionType::SERVER, "example.org", 9000),
        ]
    );
}

#[test]
fn cluster_addresses_that_do_not_match_are_skipped() {
    let hosts = vec![String::from("http://x:1"), String::from("tcp://h:5")];
    let configs = Cluster::generate_net_config(&hosts, NetConnectionType::CLIENT);
    assert_eq!(configs, vec![config(NetProtocol::TCP, NetConnectionType::CLIENT, "h", 5)]);
    assert_eq!(DEFAULT_CLUSTER_PORT, 2022);
}

#[test]
fn cluster_address_with_bad_port_is_refused() {
    let hosts = vec![String::from("tcp://h:port")];
    assert_eq!(Cluster::try_generate_net_config(&hosts, NetConnectionType::SERVER), None);
    let good = vec![String::from("udp://h:1")];
    assert_eq!(
        Cluster::try_generate_net_config(&good, NetConnectionType::SERVER),
        Some(vec![config(NetProtocol::UDP, NetConnectionType::SERVER, "h", 1)])
    );
}

#[test]
fn resolved_members_are_sorted_and_deduplicated() {
    let members = vec![
        config(NetProtocol::UDP, NetConnectionType::CLIENT, "b.example", 2),
        config(NetProtocol::TCP, NetConnectionType::CLIENT, "a.example", 1),
        config(NetProtocol::TCP, NetConnectionType::CLIENT, "c.example", 1),
    ];
    let lookups = vec![
        Some(vec![String::from("10.0.0.2"), String::from("10.0.0.1")]),
        Some(vec![String::from("10.0.0.9"), String::from("10.0.0.10"), String::from("10.0.0.9")]),
        None,
    ];
    let r = Cluster::resolve_dns(&members, &lookups);
    assert_eq!(
        r,
        vec![
            config(NetProtocol::TCP, NetConnectionType::CLIENT, "10.0.0.10", 1),
            config(NetProtocol::TCP, NetConnectionType::CLIENT, "10.0.0.9", 1),
            config(NetProtocol::UDP, NetConnectionType::CLIENT, "10.0.0.1", 2),
            config(NetProtocol::UDP, NetConnectionType::CLIENT, "10.0.0.2", 2),
        ]
    );
    let mut expected = r.clone();
    expected.sort();
    expected.dedup();
    assert_eq!(r, expected);
}

#[test]
fn config_order_matches_derived_order() {
    let a = config(NetProtocol::TCP, NetConnectionType::SERVER, "b", 1);
    let b = config(NetProtocol::UDP, NetConnectionType::CLIENT, "a", 0);
    let c = config(NetProtocol::TCP, NetConnectionType::SERVER, "ab", 1);
    let d = config(NetProtocol::TCP, NetConnectionType::SERVER, "b", 2);
    for (x, y) in [(&a, &b), (&b, &a), (&a, &c), (&c, &a), (&a, &d), (&d, &a), (&a, &a)] {
        assert_eq!(config_less(x, y), x < y);
    }
    assert!(chars_less("abc", "abd"));
    assert!(chars_less("ab", "abc"));
    assert!(!chars_less("abc", "abc"));
    assert!(!chars_less("b", "abc"));
}

#[test]
fn listeners_tcp_first_clients_skipped() {
    let cs = vec![
        config(NetProtocol::UDP, NetConnectionType::SERVER, "0.0.0.0", 1),
        config(NetProtocol::TCP, NetConnectionType::CLIENT, "h", 2),
        config(NetProtocol::TCP, NetConnectionType::SERVER, "0.0.0.0", 3),
        config(NetProtocol::UDP, NetConnectionType::SERVER, "0.0.0.0", 4),
    ];
    let plan = plan_listeners(&cs);
    assert_eq!(
        plan.listeners,
        vec![cs[2].clone(), cs[0].clone(), cs[3].clone()]
    );
    assert_eq!(plan.num_tcp_listeners, 1);
    assert_eq!(plan.num_total_listeners, 4);
    assert_eq!(plan.next_token, 3);
    assert_eq!(classify_token(0, 1, 4), TokenKind::TcpListener);
    assert_eq!(classify_token(2, 1, 4), TokenKind::UdpSocket);
    assert_eq!(classify_token(4, 1, 4), TokenKind::Stream);
    assert_eq!(next_stream_token(3, 4), 4);
    assert_eq!(next_stream_token(5, 4), 6);
    assert_eq!(next_stream_token(0, 4), 4);
}

#[test]
fn polling_stops_only_when_idle_and_stopping() {
    assert!(should_stop_polling(true, 0, 3001, 3000));
    assert!(!should_stop_polling(true, 0, 3000, 3000));
    assert!(!should_stop_polling(true, 1, 3001, 3000));
    assert!(!should_stop_polling(false, 0, 3001, 3000));
    assert_eq!(graceful_stop_pause_nanos(10_000_000_000), 1_000_000_000);
    assert_eq!(GRACEFUL_STOP_ITERATIONS, 10);
}

#[test]
fn keep_alive_requests() {
    let ask = vec![String::from("GET / HTTP/1.1"), String::from("Connection: Keep-Alive")];
    let plain = vec![String::from("GET / HTTP/1.1"), String::from("connection: keep-alive")];
    assert!(requests_keep_alive(&ask));
    assert!(http_reply_text().ends_with("\r\n\r\nHELLO-WORLD!"));
    assert!(!requests_keep_alive(&plain));
}

#[test]
fn worker_answers_on_known_streams() {
    let mut w: NetWorker<u32, u8> = NetWorkerFactory::new().new_actor();
    let msg = ReceiveTcpMessage::new(7, vec![String::from("GET /")]);
    assert_eq!(w.handle_receive_tcp_message(&msg), TcpReply::StreamMissing);
    assert_eq!(w.handle_add_tcp_connection(7, 70), None);
    assert_eq!(w.handle_receive_tcp_message(&msg), TcpReply::Reply { shutdown: true });
    let keep = ReceiveTcpMessage::new(7, vec![String::from("Connection: Keep-Alive")]);
    assert_eq!(w.handle_receive_tcp_message(&keep), TcpReply::Reply { shutdown: false });
    assert_eq!(w.handle_add_tcp_connection(7, 71), Some(70));
    assert_eq!(w.get_stream(7), Some(&71));
    w.handle_remove_tcp_connection(RemoveTcpConnection::new(7));
    assert_eq!(w.get_stream(7), None);
    assert_eq!(w.handle_add_udp_socket(1, 9), None);
    assert_eq!(w.get_socket(1), Some(&9));
    let fresh: NetWorker<u32, u8> = NetWorker::new();
    assert_eq!(fresh.get_socket(1), None);
}

#[test]
fn remote_actor_and_network_factory() {
    let mut a = TcpRemoteActorFactory::new().new_actor();
    assert_eq!(a.on_system_stop(), ActorResult::Continue);
    assert_eq!(a.response(), "HTTP/1.1 200 OK\r\n\r\n<h1>SERS</h1>");
    let _b = TcpRemoteActor::new();
    let f = NetworkManagerFactory::new(10);
    assert_eq!(f.get_graceful_shutdown_time_in_seconds(), 10);
}

#[test]
fn cluster_plan_spawns_workers_then_manager() {
    let hosts = vec![String::from("tcp://0.0.0.0:2022")];
    let members = vec![config(NetProtocol::TCP, NetConnectionType::CLIENT, "10.0.0.1", 2022)];
    let plan = Cluster::plan_cluster(&hosts, members.clone(), 3).unwrap();
    assert_eq!(plan.servers, vec![config(NetProtocol::TCP, NetConnectionType::SERVER, "0.0.0.0", 2022)]);
    assert_eq!(plan.clients, members);
    assert_eq!(plan.worker_count, 2);
    assert_eq!(
        plan.steps,
        vec![
            ClusterStep::SpawnWorker(0),
            ClusterStep::SpawnWorker(1),
            ClusterStep::AddWorkerToRouter(0),
            ClusterStep::AddWorkerToRouter(1),
            ClusterStep::SpawnManager,
        ]
    );
    assert!(Cluster::plan_cluster(&hosts, vec![], 0).is_none());
    assert!(Cluster::plan_cluster(&vec![String::from("tcp://h:x")], vec![], 3).is_none());
    assert_eq!(Cluster::worker_count(1), 0);
}

#[test]
fn stream_events_and_requests() {
    assert_eq!(stream_event(true, true, true), StreamEvent::Remove);
    assert_eq!(stream_event(false, true, false), StreamEvent::Remove);
    assert_eq!(stream_event(false, true, true), StreamEvent::Read);
    assert_eq!(stream_event(false, false, true), StreamEvent::Ignore);
    assert!(keeps_accepted_stream(false));
    assert!(!keeps_accepted_stream(true));
    assert!(!forwards_request(&vec![]));
    assert!(forwards_request(&vec![String::from("GET /")]));
}

#[test]
fn cluster_address_first_match_and_last_colon() {
    let hosts = vec![String::from("xx tcp://a:b:7\nudp://c:1")];
    assert_eq!(
        Cluster::try_generate_net_config(&hosts, NetConnectionType::SERVER),
        Some(vec![config(NetProtocol::TCP, NetConnectionType::SERVER, "a:b", 7)])
    );
}

#[test]
fn stream_tokens_grow_past_the_listeners() {
    let mut t = 2;
    let mut seen = vec![t];
    for _ in 0..4 {
        t = next_stream_token(t, 5);
        seen.push(t);
    }
    assert_eq!(seen, vec![2, 5, 6, 7, 8]);
    assert!(seen[1..].iter().all(|&x| classify_token(x, 1, 5) == TokenKind::Stream));
}

#[test]
fn net_loop_tracks_accepted_streams() {
    let cs = vec![
        config(NetProtocol::TCP, NetConnectionType::SERVER, "0.0.0.0", 1),
        config(NetProtocol::UDP, NetConnectionType::SERVER, "0.0.0.0", 2),
    ];
    let plan = plan_listeners(&cs);
    let mut l = NetLoop::new(&plan, 0, 3000);
    assert_eq!(l.on_event(0, false, true, false, 10), NetAction::Accept);
    assert_eq!(l.on_accepted(false), Some(2));
    assert_eq!(l.on_accepted(false), Some(3));
    assert_eq!(l.num_streams(), 2);
    assert_eq!(l.next_token(), 4);
    assert_eq!(l.on_event(1, false, true, false, 20), NetAction::ReceiveDatagram);
    assert_eq!(l.on_event(2, false, true, false, 20), NetAction::ReadStream(2));
    assert_eq!(l.on_event(3, false, false, false, 20), NetAction::Ignore);
    assert_eq!(l.on_event(2, true, false, false, 30), NetAction::RemoveStream(2));
    assert_eq!(l.num_streams(), 1);
    assert_eq!(l.on_event(7, false, true, false, 30), NetAction::RemoveStream(7));
    assert_eq!(l.num_streams(), 1);
}

#[test]
fn net_loop_stops_only_when_drained_and_idle() {
    let cs = vec![config(NetProtocol::TCP, NetConnectionType::SERVER, "0.0.0.0", 1)];
    let plan = plan_listeners(&cs);
    let mut l = NetLoop::new(&plan, 1000, 3000);
    assert_eq!(l.on_accepted(false), Some(1));
    assert_eq!(l.on_accepted(true), None);
    assert_eq!(l.num_streams(), 1);
    assert_eq!(l.on_event(0, false, true, true, 9000), NetAction::Accept);
    assert_eq!(l.on_event(1, true, false, true, 9000), NetAction::RemoveStream(1));
    l.on_datagram(8000);
    assert_eq!(l.on_event(0, false, true, true, 11000), NetAction::Accept);
    assert_eq!(l.on_event(0, false, true, true, 11001), NetAction::Stop);
}
