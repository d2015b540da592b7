use tyra::actor::actor_address::ActorAddress;
use tyra::actor::address_map::AddressMap;
use tyra::system::actor_error::ActorError;
use tyra::system::delay_actor::{delay_decision, DelayActorFactory, DelayDecision, DELAY_RETRY_PAUSE_MS};
use tyra::system::system_state::{ShutdownStep, SystemState, FORCE_STOP_TIMEOUT_MS};
use tyra::system::system_status::ActorSystemStatus;
use tyra::system::thread_pool_manager::{
    batch_continues, clamp_thread_count, disposition, pool_is_set_up, queue_capacity, workers_to_spawn, ActorState, Disposition,
};
use tyra::system::wakeup_manager::{check_sleep, Sleep, SleepOutcome, WakeDeduplication, Wakeup, WakeupOutcome, SYSTEM_WAKE_DEDUPLICATION_MS, WAKEUP_DEDUPLICATION_MS};

fn address(pool: &str, actor: &str) -> ActorAddress {
    ActorAddress::new(String::from("local"), String::from("test"), String::from(pool), String::from(actor))
}

fn state_with_pools() -> SystemState {
    SystemState::new(vec![(String::from("default"), 2), (String::from("unlimited"), 0)])
}

#[test]
fn status_starts_running_and_empty() {
    let s = ActorSystemStatus::new();
    assert_eq!(s.get_actor_count(), 0);
    assert!(!s.is_stopped());
    assert!(!s.is_stopping());
    assert!(!s.is_force_stopped());
}

#[test]
fn status_counts_actors_and_wraps() {
    let mut s = ActorSystemStatus::new();
    s.increment_actor_count();
    s.increment_actor_count();
    assert_eq!(s.get_actor_count(), 2);
    s.decrement_actor_count();
    assert_eq!(s.get_actor_count(), 1);
    s.decrement_actor_count();
    s.decrement_actor_count();
    assert_eq!(s.get_actor_count(), usize::MAX);
    s.increment_actor_count();
    assert_eq!(s.get_actor_count(), 0);
}

#[test]
fn status_stop_and_finalize() {
    let mut s = ActorSystemStatus::new();
    s.stop();
    assert!(s.is_stopping());
    assert!(!s.is_stopped());
    s.finalize_stop(false);
    assert!(s.is_stopped());
    assert!(!s.is_force_stopped());
    let mut f = ActorSystemStatus::new();
    f.finalize_stop(true);
    assert!(f.is_stopped());
    assert!(f.is_force_stopped());
}

#[test]
fn actor_error_messages() {
    assert_eq!(ActorError::InitError.message(), "Actor could not be started");
    assert_eq!(ActorError::InvalidActorTypeError.message(), "Actor exists, but is not of the expected Type");
    assert_eq!(
        ActorError::ThreadPoolHasTooManyActorsError.message(),
        "Actor could not be started, because thread-pool is full"
    );
    assert_eq!(
        ActorError::ThreadPoolDoesNotExistError.message(),
        "Actor could not be started, because thread-pool does not exist"
    );
}

#[test]
fn state_admits_until_the_pool_is_full() {
    let mut s = state_with_pools();
    let a = address("default", "a");
    assert_eq!(s.get_available_actor_count_for_pool("default"), Ok(2));
    assert_eq!(s.increase_pool_actor_count(&a), Ok(()));
    assert_eq!(s.get_available_actor_count_for_pool("default"), Ok(1));
    assert_eq!(s.increase_pool_actor_count(&a), Ok(()));
    assert_eq!(s.get_available_actor_count_for_pool("default"), Ok(0));
    assert_eq!(s.increase_pool_actor_count(&a), Err(ActorError::ThreadPoolHasTooManyActorsError));
    assert_eq!(s.get_actor_count(), 2);
}

#[test]
fn state_rejects_unknown_pool() {
    let mut s = state_with_pools();
    let a = address("missing", "a");
    assert_eq!(s.increase_pool_actor_count(&a), Err(ActorError::ThreadPoolDoesNotExistError));
    assert_eq!(s.get_available_actor_count_for_pool("missing"), Err(ActorError::ThreadPoolDoesNotExistError));
    assert_eq!(s.get_actor_count(), 0);
}

#[test]
fn state_unlimited_pool_reports_max_minus_count() {
    let mut s = state_with_pools();
    assert_eq!(s.get_available_actor_count_for_pool("unlimited"), Ok(usize::MAX));
    s.increase_pool_actor_count(&address("unlimited", "x")).unwrap();
    assert_eq!(s.get_available_actor_count_for_pool("unlimited"), Ok(usize::MAX - 1));
}

#[test]
fn state_admit_then_release_restores() {
    let mut s = state_with_pools();
    let a = address("default", "a");
    s.increase_pool_actor_count(&a).unwrap();
    s.decrease_pool_actor_count(&a);
    assert_eq!(s.get_actor_count(), 0);
    assert_eq!(s.get_available_actor_count_for_pool("default"), Ok(2));
}

#[test]
fn state_added_limit_and_lowered_limit() {
    let mut s = state_with_pools();
    s.add_pool_actor_limit(String::from("extra"), 1);
    assert_eq!(s.get_available_actor_count_for_pool("extra"), Ok(1));
    let a = address("default", "a");
    s.increase_pool_actor_count(&a).unwrap();
    s.increase_pool_actor_count(&a).unwrap();
    s.add_pool_actor_limit(String::from("default"), 1);
    assert_eq!(s.try_get_available_actor_count_for_pool("default"), None);
    assert_eq!(s.try_get_available_actor_count_for_pool("extra"), Some(Ok(1)));
}

#[test]
fn state_stop_is_idempotent() {
    let mut s = state_with_pools();
    assert_eq!(s.stop(5000), Some(5000));
    assert!(s.is_stopping());
    assert_eq!(s.stop(7000), None);
    assert!(!s.is_stopped());
}

#[test]
fn state_shutdown_without_actors_is_clean() {
    let mut s = state_with_pools();
    s.stop(1000);
    assert_eq!(s.shutdown_step(0, 1000), ShutdownStep::Finished { clear_mailboxes: false });
    assert!(s.is_stopped());
    assert_eq!(s.get_exit_code(), 0);
}

#[test]
fn state_shutdown_waits_then_forces() {
    let mut s = state_with_pools();
    s.increase_pool_actor_count(&address("default", "a")).unwrap();
    s.stop(1000);
    assert_eq!(s.shutdown_step(500, 1000), ShutdownStep::Wait);
    assert!(!s.is_stopped());
    assert_eq!(s.shutdown_step(1000, 1000), ShutdownStep::Finished { clear_mailboxes: true });
    assert!(s.is_stopped());
    assert!(s.is_force_stopped());
    assert_eq!(s.get_exit_code(), 1);
}

#[test]
fn state_force_stop() {
    let mut s = state_with_pools();
    assert_eq!(s.force_stop(), Some(FORCE_STOP_TIMEOUT_MS));
    assert!(s.is_force_stopped());
    assert!(s.is_stopping());
    assert_eq!(s.force_stop(), None);
}

#[test]
fn state_forced_exit_code_wins() {
    let mut s = state_with_pools();
    assert_eq!(s.stop_with_code(1000, -1), Some(1000));
    s.shutdown_step(0, 1000);
    assert_eq!(s.get_exit_code(), -1);
    let mut t = state_with_pools();
    t.use_forced_exit_code(3);
    t.force_stop();
    assert_eq!(t.get_exit_code(), 3);
}

#[test]
fn state_sigint_first_stops_second_forces() {
    let mut s = state_with_pools();
    assert_eq!(s.sigint_handler(300_000), Some(300_000));
    assert!(s.is_stopping());
    assert!(!s.is_force_stopped());
    assert_eq!(s.sigint_handler(300_000), None);
    assert!(s.is_force_stopped());
}

#[test]
fn delay_decisions() {
    assert_eq!(delay_decision(99, 100), DelayDecision::Retry);
    assert_eq!(delay_decision(100, 100), DelayDecision::Deliver);
    assert_eq!(DELAY_RETRY_PAUSE_MS, 100);
    let f = DelayActorFactory::new();
    let _actor = f.new_actor();
}

#[test]
fn thread_pool_helpers() {
    assert_eq!(queue_capacity(0), None);
    assert_eq!(queue_capacity(5), Some(5));
    assert_eq!(clamp_thread_count(1, 2, 8), 2);
    assert_eq!(clamp_thread_count(9, 2, 8), 8);
    assert_eq!(clamp_thread_count(4, 2, 8), 4);
    assert_eq!(workers_to_spawn(1, 4), 3);
    assert_eq!(workers_to_spawn(4, 4), 0);
    assert_eq!(disposition(ActorState::Running), Disposition::Requeue);
    assert_eq!(disposition(ActorState::Inactive), Disposition::AddInactive);
    assert_eq!(disposition(ActorState::Sleeping(5)), Disposition::AddSleeping(5));
    assert_eq!(disposition(ActorState::Stopped), Disposition::RemoveMailbox);
}

/// Runs a batch over the states an actor gives, as a pool thread does.
fn run_batch(states: &[ActorState], throughput: usize) -> (ActorState, usize) {
    let mut state = ActorState::Running;
    let mut handled = 0;
    while batch_continues(handled, throughput, state) {
        state = states[handled];
        handled += 1;
    }
    (state, handled)
}

#[test]
fn batch_stops_at_first_non_running_state() {
    let states = [ActorState::Running, ActorState::Inactive, ActorState::Running];
    assert_eq!(run_batch(&states, 3), (ActorState::Inactive, 2));
    assert_eq!(run_batch(&states, 1), (ActorState::Running, 1));
    assert_eq!(run_batch(&states, 0), (ActorState::Running, 0));
    assert!(!batch_continues(0, 5, ActorState::Sleeping(3)));
    assert!(!batch_continues(5, 5, ActorState::Running));
    assert!(batch_continues(4, 5, ActorState::Running));
}

#[test]
fn sleep_requests_wake_after_their_duration() {
    let s = Sleep { now: 1000, duration: 500, actor_address: address("default", "a") };
    match check_sleep(s, 1400) {
        SleepOutcome::Requeue(s) => {
            assert_eq!(s.now, 1000);
            match check_sleep(s, 1500) {
                SleepOutcome::WakeUp(w) => {
                    assert_eq!(w.iteration, 1);
                    assert_eq!(w.actor_address, address("default", "a"));
                }
                SleepOutcome::Requeue(_) => panic!("expected a wake-up"),
            }
        }
        SleepOutcome::WakeUp(_) => panic!("expected a requeue"),
    }
}

#[test]
fn wakeups_are_deduplicated_within_the_window() {
    let mut d = WakeDeduplication::new();
    let a = address("default", "a");
    match d.process(Wakeup { iteration: 0, actor_address: a.clone() }, 10_000, WAKEUP_DEDUPLICATION_MS, true) {
        WakeupOutcome::Dispatch(x) => assert_eq!(x, a),
        _ => panic!("expected a dispatch"),
    }
    assert_eq!(d.get(&a), Some(10_000));
    assert!(matches!(
        d.process(Wakeup { iteration: 0, actor_address: a.clone() }, 13_999, WAKEUP_DEDUPLICATION_MS, true),
        WakeupOutcome::Skip
    ));
    assert!(matches!(
        d.process(Wakeup { iteration: 0, actor_address: a.clone() }, 14_000, WAKEUP_DEDUPLICATION_MS, true),
        WakeupOutcome::Dispatch(_)
    ));
    assert_eq!(d.get(&a), Some(14_000));
}

#[test]
fn system_wake_loop_deduplicates_within_its_window() {
    let mut d = WakeDeduplication::new();
    let a = address("default", "a");
    assert_eq!(SYSTEM_WAKE_DEDUPLICATION_MS, 750);
    assert!(matches!(
        d.process(Wakeup { iteration: 0, actor_address: a.clone() }, 1_000, SYSTEM_WAKE_DEDUPLICATION_MS, true),
        WakeupOutcome::Dispatch(_)
    ));
    assert!(matches!(
        d.process(Wakeup { iteration: 0, actor_address: a.clone() }, 1_749, SYSTEM_WAKE_DEDUPLICATION_MS, true),
        WakeupOutcome::Skip
    ));
    assert!(matches!(
        d.process(Wakeup { iteration: 0, actor_address: a.clone() }, 1_750, SYSTEM_WAKE_DEDUPLICATION_MS, true),
        WakeupOutcome::Dispatch(_)
    ));
}

#[test]
fn wakeup_of_active_actor_goes_round() {
    let mut d = WakeDeduplication::new();
    let a = address("default", "a");
    match d.process(Wakeup { iteration: 0, actor_address: a.clone() }, 0, 750, false) {
        WakeupOutcome::Requeue(w) => {
            assert_eq!(w.iteration, 1);
            assert!(matches!(d.process(w, 100, 750, true), WakeupOutcome::Dispatch(_)));
        }
        _ => panic!("expected a requeue"),
    }
    assert_eq!(d.get(&a), Some(100));
    assert_eq!(d.get(&address("default", "b")), None);
}

#[test]
fn address_map_insert_get_remove() {
    let mut m: AddressMap<u32> = AddressMap::new();
    let a = address("default", "a");
    let b = address("default", "b");
    m.insert(a.clone(), 1);
    m.insert(b.clone(), 2);
    m.insert(a.clone(), 3);
    assert_eq!(m.get(&a), Some(&3));
    assert!(m.contains_key(&b));
    assert_eq!(m.remove(&a), Some(3));
    assert_eq!(m.remove(&a), None);
    assert!(!m.contains_key(&a));
    m.clear();
    assert_eq!(m.get(&b), None);
}

#[test]
fn removing_a_mailbox_releases_its_place() {
    let mut s = state_with_pools();
    let mut mailboxes: AddressMap<&str> = AddressMap::new();
    let a = address("default", "a");
    s.increase_pool_actor_count(&a).unwrap();
    mailboxes.insert(a.clone(), "mailbox");
    assert_eq!(s.remove_mailbox(&mut mailboxes, &a), Some("mailbox"));
    assert!(!mailboxes.contains_key(&a));
    assert_eq!(s.get_actor_count(), 0);
    assert_eq!(s.get_available_actor_count_for_pool("default"), Ok(2));
}

#[test]
fn new_pool_has_room_for_its_limit() {
    let s = state_with_pools();
    let mut t = state_with_pools();
    t.add_pool_actor_limit(String::from("fresh"), 0);
    assert_eq!(t.get_available_actor_count_for_pool("fresh"), Ok(usize::MAX));
    let mut u = s;
    u.add_pool_actor_limit(String::from("fresh"), 5);
    assert_eq!(u.get_available_actor_count_for_pool("fresh"), Ok(5));
    assert_eq!(u.increase_pool_actor_count(&address("fresh", "a")), Ok(()));
}

#[test]
fn cluster_pool_only_with_clustering() {
    assert!(pool_is_set_up(&String::from("cluster"), true));
    assert!(!pool_is_set_up(&String::from("cluster"), false));
    assert!(pool_is_set_up(&String::from("default"), false));
}
