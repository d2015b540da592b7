use vstd::prelude::*;
use crate::actor::actor_send_error::ActorSendError;

verus! {

/// Whether a message may be put into a mailbox: not once it is stopped.
pub fn check_mailbox_open(mailbox_stopped: bool) -> (r: Result<(), ActorSendError>)
    ensures
        r == if mailbox_stopped {
            Err::<(), ActorSendError>(ActorSendError::AlreadyStoppedError)
        } else {
            Ok::<(), ActorSendError>(())
        },
{
    if mailbox_stopped {
        Err(ActorSendError::AlreadyStoppedError)
    } else {
        Ok(())
    }
}

/// After a message was put into a mailbox with outcome `sent`: the outcome
/// to report, and whether the actor is to be woken (it sleeps and the
/// message went in).
pub fn after_send(sent: Result<(), ActorSendError>, mailbox_sleeping: bool) -> (r: (Result<(), ActorSendError>, bool))
    ensures
        r.0 == sent,
        r.1 == (sent is Ok && mailbox_sleeping),
{
    let wake = sent.is_ok() && mailbox_sleeping;
    (sent, wake)
}

/// An actor has stopped once its mailbox is stopped and empty.
pub fn local_is_stopped(mailbox_size: usize, mailbox_stopped: bool) -> (r: bool)
    ensures
        r == (mailbox_size == 0 && mailbox_stopped),
{
    mailbox_size == 0 && mailbox_stopped
}

} // verus!
