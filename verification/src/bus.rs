//! The event bus seen from inside a service: producing envelopes to the
//! broker and opening fan-out listeners on it.
//!
//! The broker itself is an external collaborator. The interfaces here are
//! implemented by [`InMemoryEventBus`], which stands in for a broker within
//! one process, and by [`MockEventBus`], a scripted test double; a binding
//! to a real broker implements the same traits outside this crate.

use crate::event::Event;
use crate::events::OrderPlacedEvent;
use crate::listener::Listener;
use crate::wire::{encode_envelope, env_view, wire_of, EnvelopeView};
use vstd::prelude::*;

verus! {

/// Why a publish failed. Publishes are never retried internally: the
/// caller sees the failure at once and decides what to do.
#[derive(Clone, Copy, Debug, PartialEq, Eq, Structural)]
pub enum PublishError {
    /// The envelope could not be serialized.
    Serialization,
    /// The broker did not take the message.
    Transport,
}

/// Opening a listener failed: the broker connection or the subscription
/// could not be set up. Fatal to the owning service if unhandled.
#[derive(Clone, Copy, Debug, PartialEq, Eq, Structural)]
pub struct ListenerCreationError;

/// One message as handed to the broker: topic, partition key, payload text.
pub struct WireRecord {
    pub topic: Seq<char>,
    pub key: Seq<char>,
    pub payload: Seq<char>,
}

/// One message kept by the in-memory bus.
pub struct BrokerRecord {
    pub topic: String,
    pub key: String,
    pub payload: String,
}

impl View for BrokerRecord {
    type V = WireRecord;

    open spec fn view(&self) -> WireRecord {
        WireRecord { topic: self.topic@, key: self.key@, payload: self.payload@ }
    }
}

/// A producer of order-placement envelopes.
///
/// `producer_log` is each implementation's own account of what reached the
/// broker; `records_wire` says whether that account is faithful. The bus
/// in this crate records; a scripted test double does not, and a binding
/// to a real broker cannot promise delivery either.
pub trait EventProducer: Sized {
    /// What has reached the broker through this producer, if recorded.
    spec fn producer_log(&self) -> Seq<WireRecord>;

    /// Whether `producer_log` faithfully records delivered messages.
    spec fn records_wire(&self) -> bool;

    /// Serializes `event` to the canonical wire text and hands it to the
    /// broker under `topic_name`, with `key` choosing the partition.
    /// Messages with equal keys stay ordered relative to each other. The
    /// call is not retried: a failure is returned at once.
    fn broadcast_event(
        &mut self,
        event: &Event<OrderPlacedEvent>,
        topic_name: &str,
        key: &str,
    ) -> (r: Result<(), PublishError>)
        ensures
            final(self).records_wire() == old(self).records_wire(),
            old(self).records_wire() && r is Ok ==> final(self).producer_log() == old(
                self,
            ).producer_log().push(
                WireRecord {
                    topic: topic_name@,
                    key: key@,
                    payload: wire_of(env_view(*event)),
                },
            ),
            old(self).records_wire() && r is Err ==> final(self).producer_log() == old(
                self,
            ).producer_log(),
    ;
}

/// A source of fan-out listeners, one broker subscription each.
pub trait EventListener: Sized {
    /// Whether creating a listener fails on this bus.
    spec fn listener_creation_fails(&self) -> bool;

    /// The queue bound of the listeners this bus creates.
    spec fn listener_capacity(&self) -> nat;

    /// Opens one broker consumer for `(group_id, topics)` and wraps it in
    /// a fan-out listener with no receivers yet.
    fn create_event_listener(&self, group_id: &str, topics: &[&str]) -> (r: Result<
        Listener,
        ListenerCreationError,
    >)
        ensures
            self.listener_creation_fails() ==> r is Err,
            !self.listener_creation_fails() ==> r is Ok && (r->Ok_0).queues() == Seq::<
                Seq<EnvelopeView>,
            >::empty() && !(r->Ok_0).is_halted() && (r->Ok_0).capacity_spec()
                == self.listener_capacity() && self.listener_capacity() >= 1,
    ;
}

/// A broker standing within the process: every published message is kept,
/// in order, and can be pumped into listeners by the caller.
pub struct InMemoryEventBus {
    log: Vec<BrokerRecord>,
}

impl InMemoryEventBus {
    /// A bus with nothing published yet.
    pub fn new() -> (b: InMemoryEventBus)
        ensures
            b.producer_log() == Seq::<WireRecord>::empty(),
            b.records_wire(),
            !b.listener_creation_fails(),
            b.listener_capacity() == 100,
    {
        let b = InMemoryEventBus { log: Vec::new() };
        proof {
            assert(b.producer_log() =~= Seq::<WireRecord>::empty());
        }
        b
    }

    /// The messages published so far, oldest first.
    pub fn records(&self) -> (r: &Vec<BrokerRecord>)
        ensures
            r@.map_values(|rec: BrokerRecord| rec@) == self.producer_log(),
    {
        &self.log
    }
}

impl EventProducer for InMemoryEventBus {
    closed spec fn producer_log(&self) -> Seq<WireRecord> {
        self.log@.map_values(|r: BrokerRecord| r@)
    }

    closed spec fn records_wire(&self) -> bool {
        true
    }

    fn broadcast_event(
        &mut self,
        event: &Event<OrderPlacedEvent>,
        topic_name: &str,
        key: &str,
    ) -> (r: Result<(), PublishError>)
        ensures
            r is Ok,
    {
        let payload = encode_envelope(event);
        let rec = BrokerRecord { topic: topic_name.to_owned(), key: key.to_owned(), payload };
        self.log.push(rec);
        proof {
            assert(self.producer_log() =~~= old(self).producer_log().push(
                WireRecord {
                    topic: topic_name@,
                    key: key@,
                    payload: wire_of(env_view(*event)),
                },
            ));
        }
        Ok(())
    }
}

impl EventListener for InMemoryEventBus {
    closed spec fn listener_creation_fails(&self) -> bool {
        false
    }

    closed spec fn listener_capacity(&self) -> nat {
        100
    }

    fn create_event_listener(&self, group_id: &str, topics: &[&str]) -> (r: Result<
        Listener,
        ListenerCreationError,
    >) {
        Ok(Listener::new(100))
    }
}

/// A scripted test double: it can be told to fail, delivers nothing, and
/// records nothing.
pub struct MockEventBus {
    produces_error: bool,
}

impl MockEventBus {
    /// Whether the double is scripted to fail.
    pub closed spec fn spec_produces_error(&self) -> bool {
        self.produces_error
    }

    /// A double that succeeds until told otherwise.
    pub fn new() -> (b: MockEventBus)
        ensures
            !b.spec_produces_error(),
            !b.listener_creation_fails(),
    {
        MockEventBus { produces_error: false }
    }

    /// Scripts the double to fail or succeed from now on: both producing
    /// and opening listeners fail exactly while the flag is set.
    pub fn set_produces_error(&mut self, does_produce_error: bool)
        ensures
            final(self).spec_produces_error() == does_produce_error,
            final(self).listener_creation_fails() == does_produce_error,
    {
        self.produces_error = does_produce_error;
    }
}

impl EventProducer for MockEventBus {
    closed spec fn producer_log(&self) -> Seq<WireRecord> {
        Seq::empty()
    }

    closed spec fn records_wire(&self) -> bool {
        false
    }

    fn broadcast_event(
        &mut self,
        event: &Event<OrderPlacedEvent>,
        topic_name: &str,
        key: &str,
    ) -> (r: Result<(), PublishError>)
        ensures
            *final(self) == *old(self),
            r is Err <==> old(self).spec_produces_error(),
            r is Err ==> r == Err::<(), PublishError>(PublishError::Transport),
    {
        if self.produces_error {
            Err(PublishError::Transport)
        } else {
            Ok(())
        }
    }
}

impl EventListener for MockEventBus {
    closed spec fn listener_creation_fails(&self) -> bool {
        self.produces_error
    }

    closed spec fn listener_capacity(&self) -> nat {
        1
    }

    fn create_event_listener(&self, group_id: &str, topics: &[&str]) -> (r: Result<
        Listener,
        ListenerCreationError,
    >) {
        if self.produces_error {
            Err(ListenerCreationError)
        } else {
            Ok(Listener::new(1))
        }
    }
}

} // verus!
