//! The broadcast hub of one metric family: a shallow fan-out channel from the
//! sampler to any number of independent subscriptions.

use vstd::prelude::*;

verus! {

/// Messages the hub keeps for a subscription that has not yet taken them; an
/// older one is overwritten by the next publish.
pub const HUB_DEPTH: usize = 1;

/// The publishing half of the channel, shared by the sampler and the streams.
#[verifier::external_type_specification]
#[verifier::external_body]
#[verifier::reject_recursive_types(T)]
pub struct ExSender<T>(tokio::sync::broadcast::Sender<T>);

/// One subscription: an independent receive handle.
#[verifier::external_type_specification]
#[verifier::external_body]
#[verifier::reject_recursive_types(T)]
pub struct ExReceiver<T>(tokio::sync::broadcast::Receiver<T>);

/// `tokio::sync::broadcast::Sender::new`: a channel with no subscription yet.
/// It panics on a capacity of zero or above `usize::MAX / 2`, which the
/// precondition leaves out.
#[verifier::external_body]
fn new_sender<T>(capacity: usize) -> (hub: tokio::sync::broadcast::Sender<T>)
    requires
        0 < capacity <= usize::MAX / 2,
{
    tokio::sync::broadcast::Sender::new(capacity)
}

/// `tokio::sync::broadcast::Sender::send`. With no subscription alive the
/// message comes back unchanged; otherwise the answer is the count of
/// subscriptions it was queued for, which is at least one.
#[verifier::external_body]
fn send<T>(hub: &tokio::sync::broadcast::Sender<T>, message: T) -> (outcome: Result<usize, T>)
    ensures
        outcome matches Ok(count) ==> count >= 1,
        outcome matches Err(returned) ==> returned == message,
{
    match hub.send(message) {
        Ok(count) => Ok(count),
        Err(tokio::sync::broadcast::error::SendError(returned)) => Err(returned),
    }
}

/// `tokio::sync::broadcast::Sender::subscribe`: a new handle that starts at
/// the channel's tail, so it sees only what is sent from now on. Nothing is
/// claimed of the handle. The channel panics at `usize::MAX >> 2` live
/// handles, more than memory can hold.
#[verifier::external_body]
fn new_receiver<T>(hub: &tokio::sync::broadcast::Sender<T>) -> (subscription:
    tokio::sync::broadcast::Receiver<T>) {
    hub.subscribe()
}

/// What a publish reports, from what the channel answered: the count of
/// subscriptions reached, or nothing where the channel handed the message
/// back for want of any.
pub open spec fn reached_of<T>(outcome: Result<usize, T>) -> Option<usize> {
    match outcome {
        Ok(count) => Some(count),
        Err(_) => None,
    }
}

/// Reads the channel's answer to a publish. A message that found no
/// subscription is dropped, which is no error.
pub fn reached<T>(outcome: Result<usize, T>) -> (count: Option<usize>)
    ensures
        count == reached_of(outcome),
{
    match outcome {
        Ok(count) => Some(count),
        Err(_) => None,
    }
}

/// Opens the hub of one metric family, with no subscription yet.
pub fn open<T>() -> (hub: tokio::sync::broadcast::Sender<T>) {
    new_sender(HUB_DEPTH)
}

/// Hands `message` to every subscription alive now and returns their count,
/// or `None` where there is none and the message is dropped. It never waits
/// for a subscriber.
pub fn publish<T>(hub: &tokio::sync::broadcast::Sender<T>, message: T) -> (count: Option<usize>)
    ensures
        count matches Some(n) ==> n >= 1,
{
    reached(send(hub, message))
}

/// Opens a subscription that will see the messages published from now on.
pub fn subscribe<T>(hub: &tokio::sync::broadcast::Sender<T>) -> (subscription:
    tokio::sync::broadcast::Receiver<T>) {
    new_receiver(hub)
}

} // verus!
