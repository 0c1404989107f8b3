//! The control-to-audio conduit: a bounded multi-producer single-consumer
//! queue from the crossbeam crate.  The queue itself is trusted; everything
//! that decides what to send, when to give up, and what to do with a
//! received event is verified code in the other modules.
//!
//! Nothing is assumed about what a receive returns: another producer may
//! race, so the consumer validates every event before applying it.

use vstd::prelude::*;
use crate::params::ParamType;

verus! {

/// Declares crossbeam_channel::Sender, the control side's end of the queue,
/// so it can stand in fields and signatures; it stays opaque.
#[verifier::external_type_specification]
#[verifier::external_body]
#[verifier::reject_recursive_types(T)]
pub struct ExSender<T>(crossbeam::channel::Sender<T>);

/// Declares crossbeam_channel::Receiver, the audio side's end of the queue,
/// so it can stand in fields and signatures; it stays opaque.
#[verifier::external_type_specification]
#[verifier::external_body]
#[verifier::reject_recursive_types(T)]
pub struct ExReceiver<T>(crossbeam::channel::Receiver<T>);

/// Outcome of one non-blocking send attempt.
#[derive(Clone, Copy, Debug, PartialEq, Eq, Structural)]
pub enum SendStatus {
    Sent,
    Full,
    Disconnected,
}

/// How often a producer retries a full queue before dropping the event.
pub const SEND_RETRY_LIMIT: u32 = 64;

/// Relies on crossbeam_channel::bounded: a queue that holds at most `cap`
/// events.  The documentation panics only on an absurdly large capacity,
/// which the bound on `cap` rules out.
#[verifier::external_body]
pub fn channel_bounded(cap: usize) -> (r: (
    crossbeam::channel::Sender<ParamType>,
    crossbeam::channel::Receiver<ParamType>,
))
    requires
        1 <= cap <= 0x1000_0000,
{
    crossbeam::channel::bounded(cap)
}

/// Relies on crossbeam_channel::Sender::try_send: never blocks; the event is
/// queued, or comes back because the queue is full or the receiver is gone.
#[verifier::external_body]
pub fn try_send_param(tx: &crossbeam::channel::Sender<ParamType>, change: ParamType) -> (s:
    SendStatus)
{
    match tx.try_send(change) {
        Ok(()) => SendStatus::Sent,
        Err(crossbeam::channel::TrySendError::Full(_)) => SendStatus::Full,
        Err(crossbeam::channel::TrySendError::Disconnected(_)) => SendStatus::Disconnected,
    }
}

/// Relies on crossbeam_channel::Receiver::try_recv: never blocks; returns an
/// event if one is queued.  An empty and a torn-down queue both end the
/// drain, so they both map to `None`.
#[verifier::external_body]
pub fn try_recv_param(rx: &crossbeam::channel::Receiver<ParamType>) -> (c: Option<ParamType>) {
    match rx.try_recv() {
        Ok(change) => Some(change),
        Err(crossbeam::channel::TryRecvError::Empty) => None,
        Err(crossbeam::channel::TryRecvError::Disconnected) => None,
    }
}

/// Bounded-spin send: retry a full queue a fixed number of times, never
/// block, and abandon silently when the consumer is gone or the queue stays
/// full.  Returns the last attempt's outcome.
pub fn send_with_retry(
    tx: &crossbeam::channel::Sender<ParamType>,
    change: ParamType,
    max_tries: u32,
) -> (s: SendStatus) {
    let mut i: u32 = 0;
    while i < max_tries
        invariant
            0 <= i <= max_tries,
        decreases max_tries - i,
    {
        match try_send_param(tx, change) {
            SendStatus::Sent => {
                return SendStatus::Sent;
            },
            SendStatus::Disconnected => {
                return SendStatus::Disconnected;
            },
            SendStatus::Full => {},
        }
        i = i + 1;
    }
    SendStatus::Full
}

} // verus!
