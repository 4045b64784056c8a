use host_metrics::stream::{stream_start, stream_step, StreamAction, StreamEvent, StreamState};

#[test]
fn a_new_stream_waits() {
    assert_eq!(stream_start(), StreamState::Waiting);
}

#[test]
fn a_snapshot_is_delivered_then_the_stream_waits_again() {
    let (state, action) = stream_step(stream_start(), StreamEvent::Snapshot);
    assert_eq!(state, StreamState::Delivering);
    assert_eq!(action, StreamAction::Deliver);
    let (state, action) = stream_step(state, StreamEvent::Delivered);
    assert_eq!(state, StreamState::Waiting);
    assert_eq!(action, StreamAction::AwaitSnapshot);
}

#[test]
fn lag_is_no_error() {
    let (state, action) = stream_step(StreamState::Waiting, StreamEvent::Lagged(5));
    assert_eq!(state, StreamState::Waiting);
    assert_eq!(action, StreamAction::AwaitSnapshot);
    let (state, action) = stream_step(state, StreamEvent::Lagged(u64::MAX));
    assert_eq!(state, StreamState::Waiting);
    assert_eq!(action, StreamAction::AwaitSnapshot);
}

#[test]
fn a_failed_delivery_closes_the_stream() {
    let (state, action) = stream_step(StreamState::Delivering, StreamEvent::DeliveryFailed);
    assert_eq!(state, StreamState::Closed);
    assert_eq!(action, StreamAction::Close);
}

#[test]
fn a_closed_hub_closes_the_stream() {
    let (state, action) = stream_step(StreamState::Waiting, StreamEvent::HubClosed);
    assert_eq!(state, StreamState::Closed);
    assert_eq!(action, StreamAction::Close);
}

#[test]
fn closed_is_final() {
    let events = [
        StreamEvent::Snapshot,
        StreamEvent::Lagged(1),
        StreamEvent::HubClosed,
        StreamEvent::Delivered,
        StreamEvent::DeliveryFailed,
    ];
    for event in events {
        let (state, action) = stream_step(StreamState::Closed, event);
        assert_eq!(state, StreamState::Closed);
        assert_eq!(action, StreamAction::Close);
    }
}

#[test]
fn a_long_run_without_failure_stays_open() {
    let mut state = stream_start();
    for round in 0..100u64 {
        let (next, action) = stream_step(state, StreamEvent::Snapshot);
        assert_eq!(action, StreamAction::Deliver);
        let (next, action) = stream_step(next, StreamEvent::Delivered);
        assert_eq!(action, StreamAction::AwaitSnapshot);
        let (next, action) = stream_step(next, StreamEvent::Lagged(round));
        assert_eq!(action, StreamAction::AwaitSnapshot);
        state = next;
    }
    assert_eq!(state, StreamState::Waiting);
}
