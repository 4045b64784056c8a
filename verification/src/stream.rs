//! The decisions of one streaming connection. The caller waits on the
//! subscription and on the connection; this module says what to do next.

use vstd::prelude::*;

verus! {

/// Where a connection stands.
#[derive(Clone, Copy, Debug, PartialEq, Eq, Structural)]
pub enum StreamState {
    /// Waiting for the next published snapshot.
    Waiting,
    /// A snapshot was handed out for delivery and its outcome is awaited.
    Delivering,
    /// The connection is over.
    Closed,
}

/// What happened since the last decision.
#[derive(Clone, Copy, Debug, PartialEq, Eq, Structural)]
pub enum StreamEvent {
    /// The subscription yielded a snapshot.
    Snapshot,
    /// The subscription fell behind and this many snapshots were dropped for it.
    Lagged(u64),
    /// The hub is gone: nothing will be published any more.
    HubClosed,
    /// The snapshot reached the peer.
    Delivered,
    /// The delivery failed: the peer is gone or the transport broke.
    DeliveryFailed,
}

/// What the caller does next.
#[derive(Clone, Copy, Debug, PartialEq, Eq, Structural)]
pub enum StreamAction {
    /// Wait on the subscription for the next snapshot.
    AwaitSnapshot,
    /// Serialize the snapshot just received and send it to the peer.
    Deliver,
    /// Release the subscription and end the loop.
    Close,
}

/// The state after `event`. A dropped snapshot is no error; a failed
/// delivery and a closed hub end the connection, and the end is final.
pub open spec fn next_state(state: StreamState, event: StreamEvent) -> StreamState {
    match state {
        StreamState::Closed => StreamState::Closed,
        _ => match event {
            StreamEvent::Snapshot => StreamState::Delivering,
            StreamEvent::Lagged(_) => StreamState::Waiting,
            StreamEvent::Delivered => StreamState::Waiting,
            StreamEvent::HubClosed => StreamState::Closed,
            StreamEvent::DeliveryFailed => StreamState::Closed,
        },
    }
}

/// The action that goes with a state.
pub open spec fn action_of(state: StreamState) -> StreamAction {
    match state {
        StreamState::Waiting => StreamAction::AwaitSnapshot,
        StreamState::Delivering => StreamAction::Deliver,
        StreamState::Closed => StreamAction::Close,
    }
}

/// The state of a connection that has just subscribed.
pub fn stream_start() -> (state: StreamState)
    ensures
        state == StreamState::Waiting,
{
    StreamState::Waiting
}

/// One decision of the stream loop: the next state and what to do in it.
pub fn stream_step(state: StreamState, event: StreamEvent) -> (next: (StreamState, StreamAction))
    ensures
        next.0 == next_state(state, event),
        next.1 == action_of(next.0),
{
    let after = match state {
        StreamState::Closed => StreamState::Closed,
        _ => match event {
            StreamEvent::Snapshot => StreamState::Delivering,
            StreamEvent::Lagged(_) => StreamState::Waiting,
            StreamEvent::Delivered => StreamState::Waiting,
            StreamEvent::HubClosed => StreamState::Closed,
            StreamEvent::DeliveryFailed => StreamState::Closed,
        },
    };
    let action = match after {
        StreamState::Waiting => StreamAction::AwaitSnapshot,
        StreamState::Delivering => StreamAction::Deliver,
        StreamState::Closed => StreamAction::Close,
    };
    (after, action)
}

/// The state after a run of events, taken in order.
pub open spec fn state_after(state: StreamState, events: Seq<StreamEvent>) -> StreamState
    decreases events.len(),
{
    if events.len() == 0 {
        state
    } else {
        next_state(state_after(state, events.drop_last()), events.last())
    }
}

/// An open connection ends only on a failed delivery or a closed hub: while
/// neither has happened it stays open, however far the subscriber lags.
pub proof fn lemma_open_until_failure(state: StreamState, events: Seq<StreamEvent>)
    requires
        state != StreamState::Closed,
        forall|i: int|
            0 <= i < events.len() ==> events[i] != StreamEvent::HubClosed && events[i]
                != StreamEvent::DeliveryFailed,
    ensures
        state_after(state, events) != StreamState::Closed,
    decreases events.len(),
{
    if events.len() > 0 {
        lemma_open_until_failure(state, events.drop_last());
    }
}

/// A closed connection stays closed whatever happens.
pub proof fn lemma_closed_is_final(events: Seq<StreamEvent>)
    ensures
        state_after(StreamState::Closed, events) == StreamState::Closed,
    decreases events.len(),
{
    if events.len() > 0 {
        lemma_closed_is_final(events.drop_last());
    }
}

} // verus!
