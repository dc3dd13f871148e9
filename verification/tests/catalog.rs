use event_bus::bus::MockEventBus;
use event_bus::catalog_db::{CatalogDb, CatalogDbClient, ClothingItem, MockCatalogDb};
use event_bus::catalog_service::{item_not_found_message, CatalogService};
use event_bus::listener_service::ListenerService;

fn generate_random_item(item_id: u32, stock: u32) -> ClothingItem {
    ClothingItem {
        id: item_id,
        name: "random_item".to_string(),
        description: "desc".to_string(),
        sizes: vec!["S".to_string(), "M".to_string(), "L".to_string(), "XL".to_string()],
        price_cents: 2000,
        stock,
        images: vec![
            "https://example.com/t-shirt-front.jpg".to_string(),
            "https://example.com/t-shirt-back.jpg".to_string(),
        ],
        video: "https://example.com/t-shirt-video.mp4".to_string(),
    }
}

#[test]
fn test_add_and_retrieve_item() {
    let mut db = CatalogDbClient::new();
    let test_item = ClothingItem {
        id: 10,
        name: "Test Item".to_string(),
        description: "A test item".to_string(),
        sizes: vec!["M".to_string()],
        price_cents: 1000,
        stock: 20,
        images: vec!["https://example.com/test-item.jpg".to_string()],
        video: "https://example.com/test-item-video.mp4".to_string(),
    };

    db.add_item(test_item);

    let retrieved_item = db.get_item(10).unwrap();
    assert_eq!(retrieved_item.name, "Test Item");
    assert_eq!(retrieved_item.stock, 20);
}

#[test]
fn test_get_non_existent_item() {
    let db = CatalogDbClient::new();
    assert!(db.get_item(100).is_none());
}

#[test]
fn test_get_mut_item() {
    let mut db = CatalogDbClient::new();
    let current = db.get_item(1).unwrap().stock;
    db.update_stock(1, current + 1);
    assert_eq!(db.get_item(1).unwrap().stock, 101);
}

#[test]
fn test_get_catalog() {
    let db = CatalogDbClient::new();
    let catalog = db.get_catalog();
    assert!(!catalog.is_empty());
    assert_eq!(catalog.len(), 5);
}

#[test]
fn test_new_catalog_service() {
    // prepare
    let mock_event_listener = MockEventBus::new();
    let mut mock_catalog_db = MockCatalogDb::new();
    let t_shirt = generate_random_item(6, 50);
    let expected_stock = t_shirt.stock;
    mock_catalog_db.set_expected_get_item(Some(t_shirt));

    // act
    let sut = CatalogService::new(mock_catalog_db, mock_event_listener);

    // assert that db is mocked and accessible to confirm initialization
    assert_eq!(sut.get_stock(6).unwrap(), expected_stock);
}

#[test]
fn test_get_items() {
    // prepare
    let mock_event_listener = MockEventBus::new();
    let mut mock_catalog_db = MockCatalogDb::new();
    let items = vec![generate_random_item(1, 25), generate_random_item(2, 50)];
    mock_catalog_db.set_expected_vec(items);

    // act
    let sut = CatalogService::new(mock_catalog_db, mock_event_listener);

    // assert
    let result = sut.get_items();
    assert_eq!(result.len(), 2);
    assert_eq!(result[0].name, String::from("random_item"));
}

#[test]
fn test_get_items_omits_sold_out() {
    let mock_event_listener = MockEventBus::new();
    let mut mock_catalog_db = MockCatalogDb::new();
    let items = vec![
        generate_random_item(1, 25),
        generate_random_item(2, 0),
        generate_random_item(3, 50),
    ];
    mock_catalog_db.set_expected_vec(items);
    let sut = CatalogService::new(mock_catalog_db, mock_event_listener);

    let result = sut.get_items();
    assert_eq!(result.len(), 2);
    assert_eq!(result[0].id, 1);
    assert_eq!(result[1].id, 3);
}

#[test]
fn test_get_stock_success() {
    // prepare
    let mock_event_listener = MockEventBus::new();
    let mut mock_catalog_db = MockCatalogDb::new();
    let item = generate_random_item(1, 33);
    mock_catalog_db.set_expected_get_item(Some(item));

    // act
    let sut = CatalogService::new(mock_catalog_db, mock_event_listener);

    // assert
    let result = sut.get_stock(1);
    assert_eq!(result.unwrap(), 33);
}

#[test]
fn test_get_stock_item_not_found() {
    // prepare
    let mock_event_listener = MockEventBus::new();
    let mut mock_catalog_db = MockCatalogDb::new();
    mock_catalog_db.set_expected_get_item(None);

    // act
    let sut = CatalogService::new(mock_catalog_db, mock_event_listener);

    // assert
    let result = sut.get_stock(1);
    assert_eq!(result.is_err(), true);
}

#[test]
fn test_start_event_listeners() {
    let mock_event_listener = MockEventBus::new();
    let mut mock_catalog_db = MockCatalogDb::new();
    mock_catalog_db.set_expected_get_item(None);

    // act
    let mut sut = CatalogService::new(mock_catalog_db, mock_event_listener);

    // assert
    assert!(sut.start_event_listeners().is_ok());
}

#[test]
fn test_start_event_listeners_reports_broker_failure() {
    let mut mock_event_listener = MockEventBus::new();
    mock_event_listener.set_produces_error(true);
    let mock_catalog_db = MockCatalogDb::new();
    let mut sut = CatalogService::new(mock_catalog_db, mock_event_listener);
    assert!(sut.start_event_listeners().is_err());
}

#[test]
fn test_stock_endpoint_for_unknown_item() {
    // The catalog's development store has ids 1 to 5; 999 is not on file.
    let db = CatalogDbClient::new();
    let bus = MockEventBus::new();
    let sut = CatalogService::new(db, bus);

    assert!(sut.get_stock(999).is_err());
    assert_eq!(sut.render_stock_response(999), "This item does not exist.");
    assert_eq!(item_not_found_message(), "This item does not exist.");
}

#[test]
fn test_stock_endpoint_renders_count() {
    let db = CatalogDbClient::new();
    let bus = MockEventBus::new();
    let sut = CatalogService::new(db, bus);
    assert_eq!(sut.render_stock_response(1), "100");
}
