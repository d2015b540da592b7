use tyra::actor::actor_address::ActorAddress;
use tyra::actor::actor_result::ActorResult;
use tyra::router::round_robin_router::RoundRobinRouterProps;
use tyra::router::router_message::RouterMessage;
use tyra::routers::add_actor_message::AddActorMessage;
use tyra::routers::bulk_router_message::BulkRouterMessage;
use tyra::routers::least_message_router::{system_stop_result, LeastMessageRouter, LeastMessageRouterFactory};
use tyra::routers::remove_actor_message::RemoveActorMessage;
use tyra::routers::round_robin_router::{RoundRobinRouter, RoundRobinRouterFactory};
use tyra::routers::route_decision::{RouteDecision, TargetStatus};
use tyra::routers::send_to_all_targets_message::SendToAllTargetsMessage;
use tyra::routers::sharded_router::{ShardedRouter, ShardedRouterFactory};
use tyra::wrapper::actor_wrapper::{ActorWrapper, Routee};

fn target(name: &str) -> ActorWrapper<u32> {
    ActorWrapper::new_remote(ActorAddress::new(
        String::from("remote"),
        String::from("test"),
        String::from("default"),
        String::from(name),
    ))
}

fn running(mailbox_size: usize) -> TargetStatus {
    TargetStatus { stopped: false, mailbox_size }
}

fn stopped() -> TargetStatus {
    TargetStatus { stopped: true, mailbox_size: 0 }
}

#[test]
fn round_robin_without_targets_drops() {
    let mut r: RoundRobinRouter<ActorWrapper<u32>> = RoundRobinRouter::new();
    assert_eq!(r.handle_router_message(), None);
    assert_eq!(r.handle_bulk_router_message(BulkRouterMessage::new(vec![1, 2, 3])).len(), 0);
}

#[test]
fn round_robin_visits_each_target_once_per_round() {
    let mut r = RoundRobinRouterFactory::new().new_actor();
    for n in ["a", "b", "c"] {
        assert_eq!(r.handle_add_actor(AddActorMessage::new(target(n))), ActorResult::Continue);
    }
    let picks: Vec<usize> = (0..6).map(|_| r.handle_router_message().unwrap()).collect();
    assert_eq!(picks, vec![1, 2, 0, 1, 2, 0]);
}

#[test]
fn round_robin_bulk_splits_into_equal_chunks() {
    let mut r = RoundRobinRouterProps::new().new_actor();
    r.handle_add_actor(AddActorMessage::new(target("a")));
    r.handle_add_actor(AddActorMessage::new(target("b")));
    let out = r.handle_bulk_router_message(BulkRouterMessage::new(vec![1, 2, 3, 4, 5]));
    assert_eq!(out, vec![(1, vec![1, 2]), (0, vec![3, 4, 5])]);
    assert_eq!(r.handle_router_message(), Some(1));
}

#[test]
fn round_robin_remove_by_address() {
    let mut r = RoundRobinRouter::new();
    r.handle_add_actor(AddActorMessage::new(target("a")));
    r.handle_add_actor(AddActorMessage::new(target("b")));
    assert_eq!(r.handle_remove_actor(RemoveActorMessage::new(target("a"))), ActorResult::Continue);
    assert_eq!(r.num_targets(), 1);
    assert_eq!(r.get_target(0).get_address().actor, "b");
    r.handle_remove_actor(RemoveActorMessage::new(target("b")));
    assert_eq!(r.handle_router_message(), None);
}

#[test]
fn least_message_picks_smallest_mailbox() {
    let mut r = LeastMessageRouterFactory::new(1, true, false).new_actor();
    assert!(r.stops_on_system_stop());
    for n in ["a", "b", "c"] {
        r.handle_add_actor(AddActorMessage::new(target(n)));
    }
    let d = r.handle_message(vec![running(5), running(3), running(4)]);
    assert_eq!(d, RouteDecision::Forward(1));
    let d = r.handle_message(vec![running(5), running(0), running(4)]);
    assert_eq!(d, RouteDecision::Forward(1));
}

#[test]
fn least_message_stops_searching_at_small_mailbox() {
    let mut r = LeastMessageRouter::new(3, false, false);
    r.handle_add_actor(AddActorMessage::new(target("a")));
    r.handle_add_actor(AddActorMessage::new(target("b")));
    assert_eq!(r.handle_message(vec![running(2), running(0)]), RouteDecision::Forward(0));
}

#[test]
fn least_message_drops_stopped_targets() {
    let mut r = LeastMessageRouter::new(0, false, true);
    r.handle_add_actor(AddActorMessage::new(target("a")));
    r.handle_add_actor(AddActorMessage::new(target("b")));
    assert_eq!(r.handle_message(vec![stopped(), running(7)]), RouteDecision::Forward(0));
    assert_eq!(r.num_targets(), 1);
    assert_eq!(r.get_target(0).get_address().actor, "b");
    assert_eq!(r.handle_message(vec![stopped()]), RouteDecision::StopRouter);
    assert_eq!(r.num_targets(), 0);
}

#[test]
fn least_message_without_targets_drops() {
    let mut r: LeastMessageRouter<ActorWrapper<u32>> = LeastMessageRouter::new(0, false, false);
    assert_eq!(r.handle_message(vec![]), RouteDecision::Drop);
    assert_eq!(r.handle_send_to_all_targets(vec![]), RouteDecision::Drop);
}

#[test]
fn least_message_send_to_all_and_remove() {
    let mut r = LeastMessageRouter::new(0, false, false);
    r.handle_add_actor(AddActorMessage::new(target("a")));
    r.handle_add_actor(AddActorMessage::new(target("b")));
    assert_eq!(r.handle_send_to_all_targets(vec![running(0), running(0)]), RouteDecision::ForwardToAll);
    r.handle_remove_actor(RemoveActorMessage::new(target("a")));
    assert_eq!(r.num_targets(), 1);
    let m = SendToAllTargetsMessage::new(5u8);
    assert_eq!(m.msg, 5);
}

#[test]
fn system_stop_results() {
    assert_eq!(system_stop_result(true), ActorResult::Stop);
    assert_eq!(system_stop_result(false), ActorResult::Continue);
}

#[test]
fn sharded_routes_to_a_running_target() {
    let mut r = ShardedRouterFactory::new(false, false).new_actor();
    r.handle_add_actor(AddActorMessage::new(target("a")));
    r.handle_add_actor(AddActorMessage::new(target("b")));
    match r.handle_message(42, vec![running(0), running(0)]) {
        RouteDecision::Forward(i) => assert!(i < 2),
        d => panic!("unexpected decision {:?}", d),
    }
}

#[test]
fn sharded_same_hash_same_target() {
    let mut r = ShardedRouter::new(false, false);
    for n in ["a", "b", "c", "d"] {
        r.handle_add_actor(AddActorMessage::new(target(n)));
    }
    let first = r.handle_message(7, vec![running(0); 4]);
    let second = r.handle_message(7, vec![running(0); 4]);
    assert_eq!(first, second);
}

#[test]
fn sharded_drops_stopped_targets() {
    let mut r = ShardedRouter::new(false, true);
    r.handle_add_actor(AddActorMessage::new(target("a")));
    assert_eq!(r.handle_message(1, vec![stopped()]), RouteDecision::StopRouter);
    assert_eq!(r.num_targets(), 0);
    let mut k = ShardedRouter::new(false, false);
    k.handle_add_actor(AddActorMessage::new(target("a")));
    assert_eq!(k.handle_message(1, vec![stopped()]), RouteDecision::Drop);
    assert_eq!(k.handle_message(1, vec![]), RouteDecision::Drop);
}

#[test]
fn sharded_send_to_all_and_remove() {
    let mut r = ShardedRouter::new(true, false);
    assert!(r.stops_on_system_stop());
    r.handle_add_actor(AddActorMessage::new(target("a")));
    r.handle_add_actor(AddActorMessage::new(target("b")));
    assert_eq!(r.handle_send_to_all_targets(vec![running(0), stopped()]), RouteDecision::ForwardToAll);
    assert_eq!(r.num_targets(), 1);
    r.handle_remove_actor(RemoveActorMessage::new(target("a")));
    assert_eq!(r.num_targets(), 0);
    assert!(r.get_shard_target(0).is_none());
    let out = r.handle_bulk_router_message(BulkRouterMessage::new(vec![1, 2]), vec![]);
    assert!(out.is_empty());
}

#[test]
fn router_message_holds_its_message() {
    assert_eq!(RouterMessage::new(3u8).msg, 3);
}

#[test]
fn removing_the_last_target_drops_instead_of_stopping() {
    let mut lm = LeastMessageRouter::new(0, false, true);
    lm.handle_add_actor(AddActorMessage::new(target("a")));
    lm.handle_remove_actor(RemoveActorMessage::new(target("a")));
    assert_eq!(lm.handle_message(vec![]), RouteDecision::Drop);
    let mut sh = ShardedRouter::new(false, true);
    sh.handle_add_actor(AddActorMessage::new(target("a")));
    sh.handle_remove_actor(RemoveActorMessage::new(target("a")));
    assert_eq!(sh.handle_message(3, vec![]), RouteDecision::Drop);
}

#[test]
fn round_robin_round_visits_distinct_targets() {
    let mut r = RoundRobinRouter::new();
    for n in ["a", "b", "c", "d"] {
        r.handle_add_actor(AddActorMessage::new(target(n)));
    }
    r.handle_router_message();
    let mut seen: Vec<usize> = (0..4).map(|_| r.handle_router_message().unwrap()).collect();
    seen.sort();
    assert_eq!(seen, vec![0, 1, 2, 3]);
}

#[test]
fn sharded_bulk_sends_every_message_once() {
    let mut r = ShardedRouter::new(false, false);
    r.handle_add_actor(AddActorMessage::new(target("a")));
    r.handle_add_actor(AddActorMessage::new(target("b")));
    let out = r.handle_bulk_router_message(BulkRouterMessage::new(vec![1, 2, 3]), vec![running(0), running(0)]);
    assert_eq!(out, vec![(0, vec![1]), (1, vec![2, 3])]);
}

#[test]
fn least_message_all_stopped_keeps_running_without_stop_on_empty() {
    let mut r = LeastMessageRouter::new(0, false, false);
    r.handle_add_actor(AddActorMessage::new(target("a")));
    r.handle_add_actor(AddActorMessage::new(target("b")));
    assert_eq!(r.handle_message(vec![stopped(), stopped()]), RouteDecision::Drop);
    assert_eq!(r.num_targets(), 0);
    assert_eq!(r.handle_message(vec![]), RouteDecision::Drop);
    r.handle_add_actor(AddActorMessage::new(target("c")));
    assert_eq!(r.handle_message(vec![running(0)]), RouteDecision::Forward(0));
}

#[test]
fn factories_make_the_same_router_every_time() {
    let mut f = LeastMessageRouterFactory::new(2, true, false);
    let first: LeastMessageRouter<ActorWrapper<u32>> = f.new_actor();
    let second: LeastMessageRouter<ActorWrapper<u32>> = f.new_actor();
    assert_eq!(first.num_targets(), 0);
    assert!(second.stops_on_system_stop());
    let mut g = ShardedRouterFactory::new(true, false);
    let _a: ShardedRouter<ActorWrapper<u32>> = g.new_actor();
    let b: ShardedRouter<ActorWrapper<u32>> = g.new_actor();
    assert!(b.stops_on_system_stop());
}

#[test]
fn sharded_send_to_all_drops_every_stopped_target() {
    let mut r = ShardedRouter::new(false, false);
    for n in ["a", "b", "c"] {
        r.handle_add_actor(AddActorMessage::new(target(n)));
    }
    assert_eq!(r.handle_send_to_all_targets(vec![stopped(), running(0), stopped()]), RouteDecision::ForwardToAll);
    assert_eq!(r.num_targets(), 1);
    assert_eq!(r.get_target(0).get_address().actor, "b");
}

#[test]
fn sharded_bulk_skips_stopped_targets() {
    let mut r = ShardedRouter::new(false, false);
    for n in ["a", "b", "c"] {
        r.handle_add_actor(AddActorMessage::new(target(n)));
    }
    let out = r.handle_bulk_router_message(BulkRouterMessage::new(vec![1, 2, 3, 4, 5]), vec![running(0), stopped(), running(0)]);
    assert_eq!(out, vec![(0, vec![1, 2]), (1, vec![3, 4, 5])]);
    assert_eq!(r.num_targets(), 2);
    assert_eq!(r.get_target(1).get_address().actor, "c");
}

#[test]
fn round_robin_routes_again_after_refill() {
    let mut r = RoundRobinRouter::new();
    r.handle_add_actor(AddActorMessage::new(target("a")));
    r.handle_remove_actor(RemoveActorMessage::new(target("a")));
    assert_eq!(r.handle_router_message(), None);
    r.handle_add_actor(AddActorMessage::new(target("b")));
    r.handle_add_actor(AddActorMessage::new(target("c")));
    assert_eq!(r.handle_router_message(), Some(1));
    assert_eq!(r.handle_router_message(), Some(0));
}
