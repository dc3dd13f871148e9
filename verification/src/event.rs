//! The event envelope: an immutable typed wrapper carried across the bus.

use vstd::prelude::*;

verus! {

/// An event to be sent across the bus. `event_type` routes the event,
/// `payload` carries the data, `source` names the producing service,
/// and `correlation_id` / `metadata` are optional tracing context.
/// The value is immutable once constructed; `timestamp` (milliseconds
/// since the Unix epoch) is stamped at construction time only.
pub struct Event<T> {
    pub event_type: String,
    pub payload: T,
    pub timestamp: u64,
    pub source: String,
    pub correlation_id: Option<String>,
    pub metadata: Option<Vec<(String, String)>>,
}

/// Milliseconds since the Unix epoch.
///
/// Relies on `std::time::SystemTime::now`; `duration_since` and `as_millis`
/// only convert the reading to a plain integer. Nothing is assumed of the
/// clock's value, so this contract promises nothing about the result.
#[verifier::external_body]
fn now_millis() -> u64 {
    match std::time::SystemTime::now().duration_since(std::time::UNIX_EPOCH) {
        Ok(d) => d.as_millis() as u64,
        Err(_) => 0,
    }
}

/// Everything `Event::new` promises of the envelope it returns: every field
/// except `timestamp` is exactly the corresponding argument.
pub open spec fn built_from<T>(
    e: Event<T>,
    event_type: String,
    payload: T,
    source: String,
    correlation_id: Option<String>,
    metadata: Option<Vec<(String, String)>>,
) -> bool {
    &&& e.event_type == event_type
    &&& e.payload == payload
    &&& e.source == source
    &&& e.correlation_id == correlation_id
    &&& e.metadata == metadata
}

impl<T> Event<T> {
    /// Creates a new envelope with the given properties, stamping the
    /// current time. The timestamp is the only field the caller does not
    /// control.
    pub fn new(
        event_type: String,
        payload: T,
        source: String,
        correlation_id: Option<String>,
        metadata: Option<Vec<(String, String)>>,
    ) -> (e: Event<T>)
        ensures
            built_from(e, event_type, payload, source, correlation_id, metadata),
    {
        Event {
            event_type,
            payload,
            timestamp: now_millis(),
            source,
            correlation_id,
            metadata,
        }
    }
}

/// Construction is idempotent up to the clock: two envelopes built from
/// identical inputs agree on every field except possibly `timestamp`.
pub proof fn lemma_build_idempotent<T>(
    e1: Event<T>,
    e2: Event<T>,
    event_type: String,
    payload: T,
    source: String,
    correlation_id: Option<String>,
    metadata: Option<Vec<(String, String)>>,
)
    requires
        built_from(e1, event_type, payload, source, correlation_id, metadata),
        built_from(e2, event_type, payload, source, correlation_id, metadata),
    ensures
        e1.event_type == e2.event_type,
        e1.payload == e2.payload,
        e1.source == e2.source,
        e1.correlation_id == e2.correlation_id,
        e1.metadata == e2.metadata,
{
}

} // verus!
