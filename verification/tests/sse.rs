use mcp_router::json::Json;
use mcp_router::jsonrpc::Id;
use mcp_router::sse::{RecvOutcome, RouterEvent, SseHub};

#[test]
fn publishes_and_receives_events() {
    let hub = SseHub::new();
    let mut rx = hub.subscribe();
    let event = RouterEvent {
        id: "1".into(),
        event: "test".into(),
        payload: Json::Obj(vec![("ok".to_string(), Json::Bool(true))]),
    };
    hub.publish(event.clone());
    match rx.try_next() {
        RecvOutcome::Event(received) => {
            assert_eq!(received.event, "test");
            assert_eq!(received.id, "1");
        }
        _ => panic!("receive event"),
    }
}

#[test]
fn lagged_receiver_reports_skipped_messages() {
    let hub = SseHub::new();
    let mut rx = hub.subscribe();
    for i in 0..1100 {
        hub.publish(RouterEvent {
            id: i.to_string(),
            event: "tick".into(),
            payload: Json::Obj(vec![("seq".to_string(), Json::Int(i))]),
        });
    }
    match rx.try_next() {
        RecvOutcome::Lagged(skipped) => assert!(skipped > 0),
        _ => panic!("expected lagged outcome"),
    }
    // After the lag notice the subscription keeps delivering.
    match rx.try_next() {
        RecvOutcome::Event(ev) => assert_eq!(ev.event, "tick"),
        _ => panic!("expected an event after the lag notice"),
    }
}

#[test]
fn publishing_a_full_buffer_never_blocks() {
    let hub = SseHub::new();
    let _rx = hub.subscribe();
    for i in 0..1024 {
        hub.publish(RouterEvent {
            id: i.to_string(),
            event: "tick".into(),
            payload: Json::Null,
        });
    }
}

#[test]
fn dropped_events_without_subscribers() {
    let hub = SseHub::new();
    hub.publish(RouterEvent {
        id: "x".into(),
        event: "ignored".into(),
        payload: Json::Null,
    });
    let mut rx = hub.subscribe();
    assert!(matches!(rx.try_next(), RecvOutcome::Empty));
}

#[test]
fn stream_lifecycle_payloads() {
    let id = mcp_router::sse::new_stream_id();
    assert_eq!(id.len(), 36);
    let start = mcp_router::sse::stream_start_event(
        id.clone(),
        "alpha/echo".to_string(),
        "u1".to_string(),
    );
    assert_eq!(start.event, "stream-start");
    assert_eq!(start.id, id);
    let complete = mcp_router::sse::stream_complete_event(id.clone(), Json::Bool(true));
    assert_eq!(complete.event, "stream-complete");
    let error = mcp_router::sse::stream_error_event(id.clone(), "boom".to_string());
    assert_eq!(error.event, "stream-error");

    let placeholder = mcp_router::sse::stream_response(Id::Int(1), &id);
    let Some(Json::Obj(fields)) = placeholder.result else { panic!("result expected") };
    assert_eq!(fields[0].0, "stream");
    let Json::Obj(inner) = &fields[0].1 else { panic!("object expected") };
    assert_eq!(inner[0].0, "id");
    assert_eq!(inner[0].1, Json::Str(id));
}
