use event_bus::bus::{InMemoryEventBus, MockEventBus};
use event_bus::catalog_db::{CatalogDb, CatalogDbClient, MockCatalogDb};
use event_bus::catalog_service::{CatalogService, StockUpdateOutcome};
use event_bus::listener::ConsumeError;
use event_bus::listener_service::ListenerService;
use event_bus::order_db::{MockOrderDb, Order, OrderDb, OrderDbClient, OrderRequest};
use event_bus::order_service::{
    classify_stock_response, place_order_message, parse_stock_body, CatalogApiClient,
    MockCatalogClient, NetworkError, NetworkErrorType, OrderService, PlaceOrderError,
};

fn generate_random_order() -> Order {
    Order::new(
        1,
        OrderRequest {
            item_id: 1,
            name: "something".to_string(),
            address: "hello".to_string(),
            quantity: 22,
        },
    )
}

fn generate_random_order_request() -> OrderRequest {
    OrderRequest {
        item_id: 1,
        name: "something".to_string(),
        address: "hello".to_string(),
        quantity: 22,
    }
}

#[test]
fn test_new_order_service() {
    // prepare
    let mock_event_listener = MockEventBus::new();
    let mut mock_order_db = MockOrderDb::new();
    let mock_catalog_network_service = MockCatalogClient::new();
    mock_order_db.set_expected_order(Some(generate_random_order()));

    // act
    let sut = OrderService::new(mock_order_db, mock_event_listener, mock_catalog_network_service);

    // assert that db is mocked and accessible to confirm initialization
    assert_eq!(sut.database().get_order(1).unwrap().address, "hello".to_string());
}

#[test]
fn test_place_order_catalog_network_error() {
    // prepare
    let mock_event_listener = MockEventBus::new();
    let mock_order_db = MockOrderDb::new();
    let mut mock_catalog_network_service = MockCatalogClient::new();
    mock_catalog_network_service.set_stock_result(Err(NetworkError {
        status_code: Some(500),
        error: NetworkErrorType::Standard,
    }));
    let mut sut =
        OrderService::new(mock_order_db, mock_event_listener, mock_catalog_network_service);

    // act
    let result = sut.place_order(&generate_random_order_request());

    // assert
    assert!(result.is_err());
    assert!(result.unwrap_err() == PlaceOrderError::CatalogNetworkError)
}

#[test]
fn test_place_order_item_out_of_stock_error() {
    // prepare
    let mock_event_listener = MockEventBus::new();
    let mock_order_db = MockOrderDb::new();
    let mut mock_catalog_network_service = MockCatalogClient::new();
    mock_catalog_network_service.set_stock_result(Ok(21));
    let mut sut =
        OrderService::new(mock_order_db, mock_event_listener, mock_catalog_network_service);

    // act
    let result = sut.place_order(&generate_random_order_request());

    // assert
    assert!(result.is_err());
    assert!(result.unwrap_err() == PlaceOrderError::ItemOutOfStock)
}

#[test]
fn test_place_order_success() {
    // prepare
    let mock_event_listener = MockEventBus::new();
    let mock_order_db = MockOrderDb::new();
    let mut mock_catalog_network_service = MockCatalogClient::new();
    mock_catalog_network_service.set_stock_result(Ok(25));
    let mut sut =
        OrderService::new(mock_order_db, mock_event_listener, mock_catalog_network_service);

    // act
    let result = sut.place_order(&generate_random_order_request());

    // assert
    assert!(result.is_ok());
}

#[test]
fn test_place_order_commits_and_publishes() {
    let bus = InMemoryEventBus::new();
    let db = OrderDbClient::new();
    let mut catalog = MockCatalogClient::new();
    catalog.set_stock_result(Ok(100));
    let mut sut = OrderService::new(db, bus, catalog);

    let request = OrderRequest {
        item_id: 1,
        name: "Ada".to_string(),
        address: "1 Loop Lane".to_string(),
        quantity: 60,
    };
    assert!(sut.place_order(&request).is_ok());

    let order = sut.database().get_order(1).expect("the order is committed under id 1");
    assert_eq!(order.item_id, 1);
    assert_eq!(order.quantity, 60);

    let records = sut.bus().records();
    assert_eq!(records.len(), 1);
    assert_eq!(records[0].topic, "order_placed");
    assert_eq!(records[0].key, "1");
}

#[test]
fn test_rejected_order_leaves_no_trace() {
    let bus = InMemoryEventBus::new();
    let db = OrderDbClient::new();
    let mut catalog = MockCatalogClient::new();
    catalog.set_stock_result(Ok(10));
    let mut sut = OrderService::new(db, bus, catalog);

    let mut request = generate_random_order_request();
    request.quantity = 11;
    assert_eq!(sut.place_order(&request), Err(PlaceOrderError::ItemOutOfStock));
    assert_eq!(sut.database().order_count(), 0);
    assert_eq!(sut.bus().records().len(), 0);
}

/// One full delivery: an order committed on the order side reaches the
/// catalog side through the wire and decrements the authoritative stock.
#[test]
fn test_committed_order_decrements_catalog() {
    // Order side: item 1 has stock 100 at check time.
    let bus = InMemoryEventBus::new();
    let mut catalog_port = MockCatalogClient::new();
    catalog_port.set_stock_result(Ok(100));
    let mut orders = OrderService::new(OrderDbClient::new(), bus, catalog_port);
    let request = OrderRequest {
        item_id: 1,
        name: "Ada".to_string(),
        address: "1 Loop Lane".to_string(),
        quantity: 60,
    };
    assert!(orders.place_order(&request).is_ok());

    // Catalog side: pump the published record into the service.
    let mut catalog = CatalogService::new(CatalogDbClient::new(), MockEventBus::new());
    catalog.start_event_listeners().expect("listener setup succeeds");
    let payload = orders.bus().records()[0].payload.clone();
    let outcome = catalog.process_message(&payload).expect("delivery succeeds");
    assert_eq!(outcome, StockUpdateOutcome::Applied);
    assert_eq!(catalog.get_stock(1).unwrap(), 40);
}

/// The documented oversell race: two orders both pass the stock check
/// against the same stale snapshot, both commit, and reconciliation can
/// only apply one of them. The inconsistency is the system's contract,
/// not a defect to fix.
#[test]
fn test_concurrent_orders_oversell_and_reconciliation_fails() {
    let bus = InMemoryEventBus::new();
    let mut catalog_port = MockCatalogClient::new();
    // Both orders see the same snapshot of 100, before either decrement
    // lands on the catalog side.
    catalog_port.set_stock_result(Ok(100));
    let mut orders = OrderService::new(OrderDbClient::new(), bus, catalog_port);

    let request = OrderRequest {
        item_id: 1,
        name: "Ada".to_string(),
        address: "1 Loop Lane".to_string(),
        quantity: 60,
    };
    assert!(orders.place_order(&request).is_ok());
    assert!(orders.place_order(&request).is_ok());
    assert_eq!(orders.database().order_count(), 2);

    // The catalog side now applies the two decrements in order.
    let mut catalog = CatalogService::new(CatalogDbClient::new(), MockEventBus::new());
    catalog.start_event_listeners().expect("listener setup succeeds");
    let first = orders.bus().records()[0].payload.clone();
    let second = orders.bus().records()[1].payload.clone();

    assert_eq!(catalog.process_message(&first).unwrap(), StockUpdateOutcome::Applied);
    assert_eq!(catalog.get_stock(1).unwrap(), 40);

    // 60 > 40: the second decrement is refused and the stock is left as
    // it is — the store stays inconsistent with the committed orders.
    assert_eq!(
        catalog.process_message(&second).unwrap(),
        StockUpdateOutcome::InsufficientStock
    );
    assert_eq!(catalog.get_stock(1).unwrap(), 40);
}

/// A malformed message on the wire kills the whole subscription: later
/// well-formed notifications are never applied.
#[test]
fn test_malformed_wire_message_halts_catalog_pump() {
    let mut catalog = CatalogService::new(CatalogDbClient::new(), MockEventBus::new());
    catalog.start_event_listeners().expect("listener setup succeeds");

    assert_eq!(
        catalog.process_message("this is not an envelope"),
        Err(ConsumeError::Deserialization)
    );

    // A valid notification arrives afterwards; the halted pump drops it.
    let bus = InMemoryEventBus::new();
    let mut catalog_port = MockCatalogClient::new();
    catalog_port.set_stock_result(Ok(100));
    let mut orders = OrderService::new(OrderDbClient::new(), bus, catalog_port);
    let request = generate_random_order_request();
    assert!(orders.place_order(&request).is_ok());
    let payload = orders.bus().records()[0].payload.clone();

    assert_eq!(catalog.process_message(&payload), Err(ConsumeError::Halted));
    assert_eq!(catalog.get_stock(1).unwrap(), 100);
}

#[test]
fn test_stock_url_shape() {
    let client = CatalogApiClient { host: "http://localhost:16001".to_string() };
    assert_eq!(client.stock_url(123), "http://localhost:16001/catalog/stock/123");
}

#[test]
fn test_parse_stock_body() {
    assert_eq!(parse_stock_body("100"), Ok(100));
    assert_eq!(parse_stock_body("0"), Ok(0));
    assert!(parse_stock_body("").is_err());
    assert!(parse_stock_body("12a").is_err());
    assert!(parse_stock_body("007").is_err());
    assert!(parse_stock_body("4294967296").is_err());
}

#[test]
fn test_classify_stock_response() {
    assert_eq!(classify_stock_response(true, 200, "57"), Ok(57));
    assert_eq!(
        classify_stock_response(false, 0, ""),
        Err(NetworkError { status_code: None, error: NetworkErrorType::RequestError })
    );
    assert_eq!(
        classify_stock_response(true, 503, "57"),
        Err(NetworkError { status_code: Some(503), error: NetworkErrorType::Standard })
    );
    assert_eq!(
        classify_stock_response(true, 200, "not a number"),
        Err(NetworkError { status_code: Some(23), error: NetworkErrorType::JsonError })
    );
}

#[test]
fn test_place_order_messages() {
    let request = generate_random_order_request();
    assert_eq!(
        place_order_message(&Ok(()), &request),
        "Order has been placed successfully! It's on its way to: something at hello"
    );
    assert_eq!(
        place_order_message(&Err(PlaceOrderError::ItemOutOfStock), &request),
        "This item is out of stock"
    );
    assert_eq!(
        place_order_message(&Err(PlaceOrderError::CatalogNetworkError), &request),
        "An error occurred and some of our systems are down, please try again later."
    );
}
