//! The event hub: an in-process bounded broadcast bus for streaming
//! lifecycle events. Many subscribers, best-effort delivery; a slow
//! subscriber sees how many events it missed and keeps reading.

use tokio::sync::broadcast;
use vstd::prelude::*;

use crate::json::{spec_as_str, spec_get, Json};
use crate::jsonrpc::{Id, Response};

verus! {

/// One published event: an identifier, a type tag, and a payload.
#[derive(Clone)]
pub struct RouterEvent {
    pub id: String,
    pub event: String,
    pub payload: Json,
}

/// How many in-flight events the bus holds before evicting the oldest.
pub const HUB_CAPACITY: usize = 1024;

/// tokio's broadcast send half, declared so hub handles can hold it.
#[verifier::external_type_specification]
#[verifier::external_body]
#[verifier::reject_recursive_types(T)]
pub struct ExSender<T>(broadcast::Sender<T>);

/// tokio's broadcast receive half, declared so subscriptions can hold it.
#[verifier::external_type_specification]
#[verifier::external_body]
#[verifier::reject_recursive_types(T)]
pub struct ExReceiver<T>(broadcast::Receiver<T>);

pub struct SseHub {
    sender: broadcast::Sender<RouterEvent>,
}

/// What one read attempt on a subscription yielded.
pub enum RecvOutcome {
    Event(RouterEvent),
    /// The subscriber fell behind; this many events were missed. The
    /// subscription stays usable.
    Lagged(u64),
    Empty,
    Closed,
}

/// Relies on `tokio::sync::broadcast::channel`: a bus of the given
/// bounded capacity with no subscribers yet.
#[verifier::external_body]
fn new_bus() -> SseHub {
    let (sender, _receiver) = broadcast::channel(HUB_CAPACITY);
    SseHub { sender }
}

/// Relies on `broadcast::Sender::send`: delivers to current
/// subscribers, never blocks, and merely returns an error when nobody
/// listens.
#[verifier::external_body]
fn bus_send(hub: &SseHub, event: RouterEvent) {
    let _ = hub.sender.send(event);
}

/// Relies on `broadcast::Sender::subscribe`: a fresh receiver seeing
/// events published from now on.
#[verifier::external_body]
fn bus_subscribe(hub: &SseHub) -> broadcast::Receiver<RouterEvent> {
    hub.sender.subscribe()
}

/// Relies on `broadcast::Sender::clone`: another handle to the same bus.
#[verifier::external_body]
fn bus_clone(hub: &SseHub) -> SseHub {
    SseHub { sender: hub.sender.clone() }
}

/// A live subscription to the hub.
pub struct HubSubscription {
    receiver: broadcast::Receiver<RouterEvent>,
}

/// Relies on `broadcast::Receiver::try_recv`: the next event, a lag
/// notice with the number of missed events, emptiness, or closure.
#[verifier::external_body]
fn bus_try_recv(sub: &mut HubSubscription) -> RecvOutcome {
    match sub.receiver.try_recv() {
        Ok(event) => RecvOutcome::Event(event),
        Err(broadcast::error::TryRecvError::Lagged(n)) => RecvOutcome::Lagged(n),
        Err(broadcast::error::TryRecvError::Empty) => RecvOutcome::Empty,
        Err(broadcast::error::TryRecvError::Closed) => RecvOutcome::Closed,
    }
}

impl SseHub {
    pub fn new() -> SseHub {
        new_bus()
    }

    /// Publish to every current subscriber; never blocks, and a bus
    /// with no subscribers silently drops the event.
    pub fn publish(&self, event: RouterEvent) {
        bus_send(self, event);
    }

    pub fn subscribe(&self) -> HubSubscription {
        HubSubscription { receiver: bus_subscribe(self) }
    }

}

impl Clone for SseHub {
    /// Another handle to the same bus.
    fn clone(&self) -> SseHub {
        bus_clone(self)
    }
}

impl HubSubscription {
    /// One non-blocking read attempt.
    pub fn try_next(&mut self) -> RecvOutcome {
        bus_try_recv(self)
    }

    /// Relies on nothing: hands the underlying receiver to callers
    /// that want to await events.
    #[verifier::external_body]
    pub fn into_receiver(self) -> broadcast::Receiver<RouterEvent> {
        self.receiver
    }
}

/// The streaming placeholder answer: `result.stream.id` carries the
/// synthesized stream identifier.
pub fn stream_response(id: Id, stream_id: &str) -> (r: Response)
    ensures
        r.jsonrpc@ == "2.0"@,
        r.id == id,
        r.error is None,
        (r.result matches Some(j) && (spec_get(j, "stream"@) matches Some(inner) && spec_as_str(
            spec_get(inner, "id"@),
        ) == Option::Some(stream_id@))),
{
    let mut inner: Vec<(String, Json)> = Vec::new();
    inner.push(("id".to_owned(), Json::Str(stream_id.to_owned())));
    let mut fields: Vec<(String, Json)> = Vec::new();
    fields.push(("stream".to_owned(), Json::Obj(inner)));
    Response::result(id, Json::Obj(fields))
}

/// The event opening a streamed call: carries the namespaced tool name
/// and the billed user.
pub fn stream_start_event(stream_id: String, name: String, user: String) -> (r: RouterEvent)
    ensures
        r.id@ == stream_id@,
        r.event@ == "stream-start"@,
        spec_as_str(spec_get(r.payload, "name"@)) == Option::Some(name@),
        spec_as_str(spec_get(r.payload, "user"@)) == Option::Some(user@),
{
    let mut fields: Vec<(String, Json)> = Vec::new();
    fields.push(("name".to_owned(), Json::Str(name)));
    fields.push(("user".to_owned(), Json::Str(user)));
    proof {
        reveal_strlit("name");
        reveal_strlit("user");
        let f = fields@;
        assert("name"@[0] == 'n' && "user"@[0] == 'u');
        assert(f.skip(1)[0] == f[1]);
        assert(crate::json::spec_fields_get(f.skip(1), "user"@) == Option::Some(f[1].1));
        assert(crate::json::spec_fields_get(f, "user"@) == Option::Some(f[1].1));
    }
    RouterEvent { id: stream_id, event: "stream-start".to_owned(), payload: Json::Obj(fields) }
}

/// The event closing a streamed call that succeeded: carries the
/// upstream result.
pub fn stream_complete_event(stream_id: String, result: Json) -> (r: RouterEvent)
    ensures
        r.id@ == stream_id@,
        r.event@ == "stream-complete"@,
        spec_get(r.payload, "result"@) == Option::Some(result),
{
    let mut fields: Vec<(String, Json)> = Vec::new();
    fields.push(("result".to_owned(), result));
    RouterEvent { id: stream_id, event: "stream-complete".to_owned(), payload: Json::Obj(fields) }
}

/// The event closing a streamed call that failed: carries the error
/// text.
pub fn stream_error_event(stream_id: String, message: String) -> (r: RouterEvent)
    ensures
        r.id@ == stream_id@,
        r.event@ == "stream-error"@,
        spec_as_str(spec_get(r.payload, "error"@)) == Option::Some(message@),
{
    let mut fields: Vec<(String, Json)> = Vec::new();
    fields.push(("error".to_owned(), Json::Str(message)));
    RouterEvent { id: stream_id, event: "stream-error".to_owned(), payload: Json::Obj(fields) }
}

/// Relies on `uuid::Uuid::new_v4().to_string()`: a hyphenated UUID for
/// a fresh stream, always 36 characters.
#[verifier::external_body]
pub fn new_stream_id() -> (r: String)
    ensures
        r@.len() == 36,
{
    uuid::Uuid::new_v4().to_string()
}

} // verus!
