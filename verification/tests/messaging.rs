use event_bus::bus::{EventListener, EventProducer, InMemoryEventBus, MockEventBus};
use event_bus::event::Event;
use event_bus::events::OrderPlacedEvent;
use event_bus::listener::{ConsumeError, Listener};
use event_bus::wire::{decode_envelope, encode_envelope};

fn wire_text(item_id: u32, quantity: u32) -> String {
    let event = Event::new(
        "order_placed".to_string(),
        OrderPlacedEvent { item_id, quantity },
        "Order".to_string(),
        None,
        None,
    );
    encode_envelope(&event)
}

#[test]
fn test_fan_out_delivers_to_every_receiver() {
    let mut listener = Listener::new(10);
    let r1 = listener.get_receiver();
    let r2 = listener.get_receiver();
    let r3 = listener.get_receiver();

    let wire = wire_text(4, 7);
    assert!(listener.on_message(&wire).is_ok());

    for r in [r1, r2, r3] {
        let event = listener.recv(r).expect("every receiver gets its own copy");
        assert_eq!(event.payload, OrderPlacedEvent { item_id: 4, quantity: 7 });
        assert_eq!(event.event_type, "order_placed");
        assert!(listener.recv(r).is_none());
    }
}

#[test]
fn test_no_replay_for_late_receivers() {
    let mut listener = Listener::new(10);
    let early = listener.get_receiver();
    let wire = wire_text(1, 1);
    assert!(listener.on_message(&wire).is_ok());

    let late = listener.get_receiver();
    assert!(listener.recv(early).is_some());
    assert!(listener.recv(late).is_none());
}

#[test]
fn test_full_queue_evicts_oldest_without_blocking() {
    let mut listener = Listener::new(1);
    let r = listener.get_receiver();
    assert!(listener.on_message(&wire_text(1, 1)).is_ok());
    // The queue is full now; the receiver lags: its oldest pending
    // message is evicted for the new one rather than backpressuring
    // the pump.
    assert!(listener.on_message(&wire_text(2, 2)).is_ok());

    let only = listener.recv(r).expect("the newest message is queued");
    assert_eq!(only.payload.item_id, 2);
    assert!(listener.recv(r).is_none());
}

#[test]
fn test_lagging_receiver_keeps_the_most_recent_messages() {
    let mut listener = Listener::new(2);
    let r = listener.get_receiver();
    for n in 1..=4u32 {
        assert!(listener.on_message(&wire_text(n, n)).is_ok());
    }
    // Two of the four fit; the two oldest were lost to the lag.
    assert_eq!(listener.recv(r).unwrap().payload.item_id, 3);
    assert_eq!(listener.recv(r).unwrap().payload.item_id, 4);
    assert!(listener.recv(r).is_none());
}

#[test]
fn test_malformed_message_halts_the_pump() {
    let mut listener = Listener::new(10);
    let r = listener.get_receiver();

    assert_eq!(listener.on_message("garbage"), Err(ConsumeError::Deserialization));
    // The pump is dead: even a well-formed message is not delivered.
    assert_eq!(listener.on_message(&wire_text(1, 1)), Err(ConsumeError::Halted));
    assert!(listener.recv(r).is_none());
}

#[test]
fn test_transport_error_does_not_halt() {
    let mut listener = Listener::new(10);
    let r = listener.get_receiver();
    assert_eq!(listener.on_transport_error(), Err(ConsumeError::Transport));
    assert!(listener.on_message(&wire_text(3, 3)).is_ok());
    assert!(listener.recv(r).is_some());
}

#[test]
fn test_mock_event_bus_scripted_failure() {
    let mut bus = MockEventBus::new();
    let event = Event::new(
        "order_placed".to_string(),
        OrderPlacedEvent { item_id: 1, quantity: 1 },
        "Order".to_string(),
        None,
        None,
    );
    assert!(bus.broadcast_event(&event, "order_placed", "1").is_ok());
    assert!(bus.create_event_listener("group-1", &["order_placed"]).is_ok());

    bus.set_produces_error(true);
    assert!(bus.broadcast_event(&event, "order_placed", "1").is_err());
    assert!(bus.create_event_listener("group-1", &["order_placed"]).is_err());
}

#[test]
fn test_in_memory_bus_records_published_messages() {
    let mut bus = InMemoryEventBus::new();
    let event = Event::new(
        "order_placed".to_string(),
        OrderPlacedEvent { item_id: 12, quantity: 34 },
        "Order".to_string(),
        None,
        None,
    );
    assert!(bus.broadcast_event(&event, "order_placed", "12").is_ok());

    let records = bus.records();
    assert_eq!(records.len(), 1);
    assert_eq!(records[0].topic, "order_placed");
    assert_eq!(records[0].key, "12");
    let decoded = decode_envelope(&records[0].payload).expect("published payload must decode");
    assert_eq!(decoded.payload, OrderPlacedEvent { item_id: 12, quantity: 34 });
}
