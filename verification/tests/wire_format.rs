use event_bus::event::Event;
use event_bus::events::OrderPlacedEvent;
use event_bus::wire::{decode_envelope, encode_envelope};

fn sample_event() -> Event<OrderPlacedEvent> {
    Event::new(
        "order_placed".to_string(),
        OrderPlacedEvent { item_id: 1, quantity: 60 },
        "Order".to_string(),
        None,
        None,
    )
}

#[test]
fn test_envelopes_from_identical_inputs_differ_only_in_timestamp() {
    let metadata = vec![("trace".to_string(), "abc".to_string())];
    let e1 = Event::new(
        "order_placed".to_string(),
        OrderPlacedEvent { item_id: 9, quantity: 2 },
        "Order".to_string(),
        Some("corr-1".to_string()),
        Some(metadata.clone()),
    );
    let e2 = Event::new(
        "order_placed".to_string(),
        OrderPlacedEvent { item_id: 9, quantity: 2 },
        "Order".to_string(),
        Some("corr-1".to_string()),
        Some(metadata),
    );
    assert_eq!(e1.event_type, e2.event_type);
    assert_eq!(e1.payload, e2.payload);
    assert_eq!(e1.source, e2.source);
    assert_eq!(e1.correlation_id, e2.correlation_id);
    assert_eq!(e1.metadata, e2.metadata);
}

#[test]
fn test_encode_produces_expected_json_shape() {
    let mut e = sample_event();
    e.timestamp = 1234;
    let wire = encode_envelope(&e);
    assert_eq!(
        wire,
        "{\"event_type\":\"order_placed\",\"payload\":{\"item_id\":1,\"quantity\":60},\
         \"timestamp\":1234,\"source\":\"Order\",\"correlation_id\":null,\"metadata\":null}"
    );
}

#[test]
fn test_encode_is_valid_json_for_serde() {
    let mut e = sample_event();
    e.timestamp = 77;
    e.correlation_id = Some("corr-7".to_string());
    e.metadata = Some(vec![
        ("k1".to_string(), "v1".to_string()),
        ("k2".to_string(), "v2".to_string()),
    ]);
    let wire = encode_envelope(&e);
    let value: serde_json::Value = serde_json::from_str(&wire).expect("wire text must be JSON");
    assert_eq!(value["event_type"], "order_placed");
    assert_eq!(value["payload"]["item_id"], 1);
    assert_eq!(value["payload"]["quantity"], 60);
    assert_eq!(value["timestamp"], 77);
    assert_eq!(value["source"], "Order");
    assert_eq!(value["correlation_id"], "corr-7");
    assert_eq!(value["metadata"]["k1"], "v1");
    assert_eq!(value["metadata"]["k2"], "v2");
}

#[test]
fn test_escapes_agree_with_serde() {
    let mut e = sample_event();
    e.source = "quote \" backslash \\ newline \n tab \t".to_string();
    let wire = encode_envelope(&e);
    let value: serde_json::Value = serde_json::from_str(&wire).expect("wire text must be JSON");
    assert_eq!(value["source"], "quote \" backslash \\ newline \n tab \t");
}

#[test]
fn test_round_trip_plain() {
    let mut e = sample_event();
    e.timestamp = 42;
    let decoded = decode_envelope(&encode_envelope(&e)).expect("own encoding must decode");
    assert_eq!(decoded.event_type, e.event_type);
    assert_eq!(decoded.payload, e.payload);
    assert_eq!(decoded.timestamp, 42);
    assert_eq!(decoded.source, e.source);
    assert_eq!(decoded.correlation_id, None);
    assert!(decoded.metadata.is_none());
}

#[test]
fn test_round_trip_with_escapes_and_metadata() {
    let mut e = sample_event();
    e.timestamp = u64::MAX;
    e.payload = OrderPlacedEvent { item_id: u32::MAX, quantity: 0 };
    e.source = "we \"quote\", we \\escape\\, we\nbreak\u{1}lines".to_string();
    e.correlation_id = Some("id-\t-tabbed".to_string());
    e.metadata = Some(vec![
        ("plain".to_string(), "value".to_string()),
        ("weird \"key\"".to_string(), "weird\\value\u{2}".to_string()),
    ]);
    let decoded = decode_envelope(&encode_envelope(&e)).expect("own encoding must decode");
    assert_eq!(decoded.payload, e.payload);
    assert_eq!(decoded.timestamp, e.timestamp);
    assert_eq!(decoded.source, e.source);
    assert_eq!(decoded.correlation_id, e.correlation_id);
    assert_eq!(decoded.metadata, e.metadata);
}

#[test]
fn test_decode_rejects_garbage() {
    assert!(decode_envelope("not json at all").is_err());
    assert!(decode_envelope("").is_err());
    assert!(decode_envelope("{}").is_err());
}

#[test]
fn test_decode_rejects_non_canonical_texts() {
    // Same data, but with whitespace: not the canonical form.
    assert!(decode_envelope(
        "{ \"event_type\": \"order_placed\", \"payload\": {\"item_id\": 1, \"quantity\": 60}, \
         \"timestamp\": 1234, \"source\": \"Order\", \"correlation_id\": null, \"metadata\": null}"
    )
    .is_err());
    // A leading zero in a number: not canonical.
    assert!(decode_envelope(
        "{\"event_type\":\"order_placed\",\"payload\":{\"item_id\":01,\"quantity\":60},\
         \"timestamp\":1234,\"source\":\"Order\",\"correlation_id\":null,\"metadata\":null}"
    )
    .is_err());
    // Trailing bytes after the closing brace.
    assert!(decode_envelope(
        "{\"event_type\":\"order_placed\",\"payload\":{\"item_id\":1,\"quantity\":60},\
         \"timestamp\":1234,\"source\":\"Order\",\"correlation_id\":null,\"metadata\":null} "
    )
    .is_err());
}

#[test]
fn test_decode_rejects_out_of_range_ids() {
    // 4294967296 is one past the largest item id.
    assert!(decode_envelope(
        "{\"event_type\":\"order_placed\",\"payload\":{\"item_id\":4294967296,\"quantity\":60},\
         \"timestamp\":1234,\"source\":\"Order\",\"correlation_id\":null,\"metadata\":null}"
    )
    .is_err());
}

#[test]
fn test_decode_concrete_text() {
    let decoded = decode_envelope(
        "{\"event_type\":\"order_placed\",\"payload\":{\"item_id\":5,\"quantity\":3},\
         \"timestamp\":99,\"source\":\"Order\",\"correlation_id\":\"c-1\",\
         \"metadata\":{\"a\":\"b\"}}",
    )
    .expect("canonical text must decode");
    assert_eq!(decoded.event_type, "order_placed");
    assert_eq!(decoded.payload, OrderPlacedEvent { item_id: 5, quantity: 3 });
    assert_eq!(decoded.timestamp, 99);
    assert_eq!(decoded.source, "Order");
    assert_eq!(decoded.correlation_id, Some("c-1".to_string()));
    assert_eq!(decoded.metadata, Some(vec![("a".to_string(), "b".to_string())]));
}
