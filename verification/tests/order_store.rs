use event_bus::order_db::{Order, OrderDb, OrderDbClient, OrderRequest};

fn produce_fake_order_request() -> OrderRequest {
    OrderRequest {
        item_id: 123,
        name: "James".to_string(),
        address: "23 Bugs Bunny Street, London, E1 4AH".to_string(),
        quantity: 5,
    }
}

#[test]
fn test_new_order_db_client() {
    // act
    let client = OrderDbClient::new();

    // assert
    assert_eq!(client.current_latest_order_id(), 0);
    assert!(client.order_count() == 0);
}

#[test]
fn test_add_order() {
    // prepare
    let mut client = OrderDbClient::new();
    let order_request = produce_fake_order_request();

    // act
    client.add_order(order_request.clone());

    // assert
    assert_eq!(client.current_latest_order_id(), 1);
    assert_eq!(client.order_count(), 1);
    assert!(client.get_order(1).is_some());
}

#[test]
fn test_get_order() {
    // prepare
    let mut client = OrderDbClient::new();
    let order_request = produce_fake_order_request();
    client.add_order(order_request);

    // act
    let order = client.get_order(1);
    let non_existent_order = client.get_order(2);

    // assert
    assert!(order.is_some());
    assert!(non_existent_order.is_none());
}

#[test]
fn test_order_new_copies_request() {
    let request = produce_fake_order_request();
    let order = Order::new(7, request.clone());
    assert_eq!(order.order_id, 7);
    assert_eq!(order.item_id, 123);
    assert_eq!(order.name, "James");
    assert_eq!(order.address, "23 Bugs Bunny Street, London, E1 4AH");
    assert_eq!(order.quantity, 5);
}

#[test]
fn test_order_ids_increase() {
    let mut client = OrderDbClient::new();
    for _ in 0..4 {
        client.add_order(produce_fake_order_request());
    }
    let mut last = 0u32;
    for id in 1..=4u32 {
        let order = client.get_order(id).expect("order should be on file");
        assert!(order.order_id > last);
        last = order.order_id;
    }
}

#[test]
fn test_describe_names_item_and_quantity() {
    let request = produce_fake_order_request();
    assert_eq!(request.describe(), "OrderReq = ItemId: 123, Quantity: 5");
}
