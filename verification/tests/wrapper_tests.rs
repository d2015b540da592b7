use tyra::actor::actor_address::ActorAddress;
use tyra::actor::actor_send_error::ActorSendError;
use tyra::wrapper::actor_wrapper::{ActorWrapper, Routee};
use tyra::wrapper::local_actor_wrapper::{after_send, check_mailbox_open, local_is_stopped};
use tyra::wrapper::remote_actor_wrapper::RemoteActorWrapper;

fn address(actor: &str) -> ActorAddress {
    ActorAddress::new(String::from("local"), String::from("sys"), String::from("default"), String::from(actor))
}

#[test]
fn local_wrapper_reaches_its_actor() {
    let w = ActorWrapper::new(5u32, address("a"));
    assert_eq!(w.local_target(), Some(&5));
    assert_eq!(*w.get_address(), address("a"));
}

#[test]
fn remote_wrapper_has_no_local_actor() {
    let w: ActorWrapper<u32> = ActorWrapper::new_remote(address("b"));
    assert_eq!(w.local_target(), None);
    assert_eq!(w.get_address().actor, "b");
}

#[test]
fn remote_wrapper_answers() {
    let r = RemoteActorWrapper::new();
    assert_eq!(r.stop(), Err(ActorSendError::NotAllowedForRemoteActorError));
    assert_eq!(r.sleep(10), Err(ActorSendError::NotAllowedForRemoteActorError));
    assert_eq!(r.send_after(10), Ok(()));
    assert_eq!(r.get_mailbox_size(), 0);
    assert!(!r.is_mailbox_stopped());
    assert!(!r.is_stopped());
}

#[test]
fn addresses_compare_by_all_fields() {
    assert_eq!(address("a"), address("a").duplicate());
    assert_ne!(address("a"), address("b"));
}

#[test]
fn local_send_decisions() {
    assert_eq!(check_mailbox_open(true), Err(ActorSendError::AlreadyStoppedError));
    assert_eq!(check_mailbox_open(false), Ok(()));
    assert_eq!(after_send(Ok(()), true), (Ok(()), true));
    assert_eq!(after_send(Ok(()), false), (Ok(()), false));
    assert_eq!(after_send(Err(ActorSendError::AlreadyStoppedError), true), (Err(ActorSendError::AlreadyStoppedError), false));
    assert!(local_is_stopped(0, true));
    assert!(!local_is_stopped(1, true));
    assert!(!local_is_stopped(0, false));
}

#[test]
fn wrapper_stopped_from_mailbox() {
    let local = ActorWrapper::new(1u8, address("a"));
    assert!(local.is_stopped_given(0, true));
    assert!(!local.is_stopped_given(3, true));
    let remote: ActorWrapper<u8> = ActorWrapper::new_remote(address("b"));
    assert!(!remote.is_stopped_given(0, true));
}
