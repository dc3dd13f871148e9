//! The order coordinator: a synchronous stock check against the catalog
//! side, an optimistic local commit under the store's exclusive borrow,
//! and an asynchronous order-placed notification whose failure is
//! swallowed. Commit is local and synchronous; stock reconciliation is
//! remote and asynchronous, with no compensating transaction if the
//! notification is lost.

use crate::bus::{EventProducer, WireRecord};
use crate::event::Event;
use crate::events::OrderPlacedEvent;
use crate::order_db::{spec_order, OrderDb, OrderRequest};
use crate::text::{dec_nat, dec_u64_string};
use crate::topic;
use crate::wire::{wire_of, EnvelopeView};
use vstd::prelude::*;

verus! {

/// The kind of a failed network request.
#[derive(Clone, Copy, Debug, PartialEq, Eq)]
pub enum NetworkErrorType {
    /// The server answered with a non-success status.
    Standard,
    /// The request itself failed in transport.
    RequestError,
    /// The response body did not deserialize.
    JsonError,
}

/// A failed network request: the status code, if one came back, and the
/// kind of failure.
#[derive(Clone, Copy, Debug, PartialEq, Eq)]
pub struct NetworkError {
    pub status_code: Option<u16>,
    pub error: NetworkErrorType,
}

/// The port to the catalog side over the network. The real client makes
/// one HTTP round trip; `MockCatalogClient` is a scripted test double.
pub trait CatalogNetworkService: Sized {
    /// The response this implementation will give for `item_id`, where
    /// that can be known ahead of the call (a scripted double plans its
    /// answer; the real network plans nothing).
    spec fn planned_response(&self, item_id: u32) -> Option<Result<u32, NetworkError>>;

    /// Queries the catalog side for the current stock of `item_id`: one
    /// synchronous round trip, no internal retry. Any transport or
    /// deserialization failure comes back as an error.
    fn get_stock(&mut self, item_id: u32) -> (r: Result<u32, NetworkError>)
        ensures
            match old(self).planned_response(item_id) {
                Some(resp) => r == resp,
                None => true,
            },
    ;
}

/// The address of the catalog side. The HTTP call itself is asynchronous
/// I/O and lives outside this crate; it fetches the URL this type builds.
pub struct CatalogApiClient {
    pub host: String,
}

impl CatalogApiClient {
    /// The URL of the catalog side's stock endpoint for `item_id`.
    pub fn stock_url(&self, item_id: u32) -> (u: String)
        ensures
            u@ == self.host@ + "/catalog/stock/"@ + dec_nat(item_id as nat),
    {
        let mut s = self.host.clone();
        s.append("/catalog/stock/");
        s.append(dec_u64_string(item_id as u64).as_str());
        s
    }
}

/// A scripted test double for the catalog port: every query returns the
/// planted response.
pub struct MockCatalogClient {
    response: Result<u32, NetworkError>,
}

impl MockCatalogClient {
    /// A double that reports a plain network failure until told otherwise.
    pub fn new() -> (c: MockCatalogClient)
        ensures
            forall|id: u32| c.planned_response(id) == Some(
                Err::<u32, NetworkError>(
                    NetworkError { status_code: None, error: NetworkErrorType::Standard },
                ),
            ),
    {
        MockCatalogClient {
            response: Err(NetworkError { status_code: None, error: NetworkErrorType::Standard }),
        }
    }

    /// Plants the response every query will return.
    pub fn set_stock_result(&mut self, response: Result<u32, NetworkError>)
        ensures
            forall|id: u32| final(self).planned_response(id) == Some(response),
    {
        self.response = response;
    }
}

impl CatalogNetworkService for MockCatalogClient {
    closed spec fn planned_response(&self, item_id: u32) -> Option<Result<u32, NetworkError>> {
        Some(self.response)
    }

    fn get_stock(&mut self, item_id: u32) -> (r: Result<u32, NetworkError>) {
        self.response
    }
}

/// Why an order was not placed.
#[derive(Clone, Copy, Debug, PartialEq, Eq, Structural)]
pub enum PlaceOrderError {
    /// The requested quantity exceeded the stock at check time.
    ItemOutOfStock,
    /// The synchronous stock query failed.
    CatalogNetworkError,
}

/// The view of the envelope the coordinator publishes for a committed
/// order, up to the timestamp stamped at publish time.
pub open spec fn order_envelope_view(item_id: u32, quantity: u32, ts: u64) -> EnvelopeView {
    EnvelopeView {
        event_type: topic::order_placed_spec(),
        payload: OrderPlacedEvent { item_id, quantity },
        timestamp: ts,
        source: "Order"@,
        correlation_id: None,
        metadata: None,
    }
}

/// The broker record the coordinator publishes for a committed order:
/// keyed by the item id, so notifications for one item stay ordered.
pub open spec fn order_wire_record(item_id: u32, quantity: u32, ts: u64) -> WireRecord {
    WireRecord {
        topic: topic::order_placed_spec(),
        key: dec_nat(item_id as nat),
        payload: wire_of(order_envelope_view(item_id, quantity, ts)),
    }
}

/// The order-placing service: the store of committed orders, the event
/// producer for notifications, and the network port to the catalog side.
pub struct OrderService<E: EventProducer, D: OrderDb, C: CatalogNetworkService> {
    event_bus: E,
    db: D,
    catalog_network_service: C,
}

impl<E: EventProducer, D: OrderDb, C: CatalogNetworkService> OrderService<E, D, C> {
    /// The order store.
    pub closed spec fn spec_db(&self) -> D {
        self.db
    }

    /// The event producer.
    pub closed spec fn spec_bus(&self) -> E {
        self.event_bus
    }

    /// The catalog port.
    pub closed spec fn spec_catalog(&self) -> C {
        self.catalog_network_service
    }

    /// The service is usable: its store is consistent and can still
    /// assign a fresh order id.
    pub open spec fn wf(&self) -> bool {
        &&& self.spec_db().inv()
        &&& self.spec_db().can_accept()
    }

    /// A service over the given store, producer and catalog port.
    pub fn new(db: D, event_bus: E, catalog_network_service: C) -> (s: OrderService<E, D, C>)
        ensures
            s.spec_db() == db,
            s.spec_bus() == event_bus,
            s.spec_catalog() == catalog_network_service,
    {
        OrderService { event_bus, db, catalog_network_service }
    }

    /// The order store, for inspection.
    pub fn database(&self) -> (r: &D)
        ensures
            *r == self.spec_db(),
    {
        &self.db
    }

    /// The published records, for inspection.
    pub fn bus(&self) -> (r: &E)
        ensures
            *r == self.spec_bus(),
    {
        &self.event_bus
    }

    /// The catalog port, for the surrounding runtime to configure.
    pub fn catalog_port(&mut self) -> (r: &mut C)
        ensures
            *r == old(self).spec_catalog(),
            final(self).spec_db() == old(self).spec_db(),
            final(self).spec_bus() == old(self).spec_bus(),
            final(self).spec_catalog() == *final(r),
    {
        &mut self.catalog_network_service
    }

    /// The decision and commit of order placement, given the stock the
    /// catalog side reported. Exactly when the requested quantity is
    /// within the reported stock, the order is committed under the next
    /// id and an order-placed envelope is handed to the producer, keyed
    /// by the item id; a publish failure is swallowed, so a recorded
    /// producer log grows by one record or not at all. When the quantity
    /// exceeds the stock, nothing at all happens: no order, no event.
    pub fn place_order_checked(&mut self, order_request: &OrderRequest, stock: u32) -> (r: Result<
        (),
        PlaceOrderError,
    >)
        requires
            old(self).wf(),
        ensures
            final(self).spec_db().inv(),
            final(self).spec_catalog() == old(self).spec_catalog(),
            r is Ok <==> order_request.quantity <= stock,
            r is Err ==> r == Err::<(), PlaceOrderError>(PlaceOrderError::ItemOutOfStock)
                && *final(self) == *old(self),
            r is Ok ==> {
                &&& final(self).spec_db().records_orders() == old(
                    self,
                ).spec_db().records_orders()
                &&& old(self).spec_db().records_orders() ==> {
                    &&& final(self).spec_db().latest_id() == old(self).spec_db().latest_id() + 1
                    &&& final(self).spec_db().orders_seq() == old(
                        self,
                    ).spec_db().orders_seq().push(
                        spec_order((old(self).spec_db().latest_id() + 1) as u32, *order_request),
                    )
                    &&& final(self).spec_db().can_accept() <==> old(self).spec_db().latest_id() + 1
                        < u32::MAX
                }
                &&& !old(self).spec_db().records_orders() ==> final(self).spec_db().can_accept()
                    == old(self).spec_db().can_accept()
                &&& final(self).spec_bus().records_wire() == old(self).spec_bus().records_wire()
                &&& old(self).spec_bus().records_wire() ==> (final(self).spec_bus().producer_log()
                    == old(self).spec_bus().producer_log() || (exists|ts: u64|
                    final(self).spec_bus().producer_log() == old(
                        self,
                    ).spec_bus().producer_log().push(
                        #[trigger] order_wire_record(
                            order_request.item_id,
                            order_request.quantity,
                            ts,
                        ),
                    )))
            },
    {
        if order_request.quantity > stock {
            return Err(PlaceOrderError::ItemOutOfStock);
        }
        self.db.add_order(order_request.duplicate());
        let inner_event = OrderPlacedEvent {
            item_id: order_request.item_id,
            quantity: order_request.quantity,
        };
        let event = Event::new(
            topic::order_placed().to_owned(),
            inner_event,
            "Order".to_owned(),
            None,
            None,
        );
        let key = dec_u64_string(order_request.item_id as u64);
        proof {
            assert(crate::wire::env_view(event) == order_envelope_view(
                order_request.item_id,
                order_request.quantity,
                event.timestamp,
            ));
        }
        // A publish failure is logged by the caller's runtime and
        // swallowed here: placement already committed locally.
        let publish_result = self.event_bus.broadcast_event(
            &event,
            topic::order_placed(),
            key.as_str(),
        );
        proof {
            if old(self).spec_bus().records_wire() && publish_result is Ok {
                assert(self.event_bus.producer_log() == old(self).spec_bus().producer_log().push(
                    order_wire_record(
                        order_request.item_id,
                        order_request.quantity,
                        event.timestamp,
                    ),
                ));
            }
        }
        Ok(())
    }

    /// Places an order: queries the catalog side for the current stock,
    /// rejects the request if the quantity exceeds it, otherwise commits
    /// the order and publishes the notification. A failed stock query
    /// aborts before anything is written. When the port's response is
    /// known ahead, the outcome is exact: a failed query gives
    /// `CatalogNetworkError`, a reported stock below the quantity gives
    /// `ItemOutOfStock`, and otherwise the order is placed.
    pub fn place_order(&mut self, order_request: &OrderRequest) -> (r: Result<
        (),
        PlaceOrderError,
    >)
        requires
            old(self).wf(),
        ensures
            final(self).spec_db().inv(),
            r == Err::<(), PlaceOrderError>(PlaceOrderError::CatalogNetworkError) || r == Err::<
                (),
                PlaceOrderError,
            >(PlaceOrderError::ItemOutOfStock) ==> final(self).spec_db() == old(self).spec_db()
                && final(self).spec_bus() == old(self).spec_bus(),
            r is Ok ==> {
                &&& final(self).spec_db().records_orders() == old(
                    self,
                ).spec_db().records_orders()
                &&& old(self).spec_db().records_orders() ==> {
                    &&& final(self).spec_db().latest_id() == old(self).spec_db().latest_id() + 1
                    &&& final(self).spec_db().orders_seq() == old(
                        self,
                    ).spec_db().orders_seq().push(
                        spec_order((old(self).spec_db().latest_id() + 1) as u32, *order_request),
                    )
                    &&& final(self).spec_db().can_accept() <==> old(self).spec_db().latest_id() + 1
                        < u32::MAX
                }
                &&& !old(self).spec_db().records_orders() ==> final(self).spec_db().can_accept()
                    == old(self).spec_db().can_accept()
                &&& final(self).spec_bus().records_wire() == old(self).spec_bus().records_wire()
                &&& old(self).spec_bus().records_wire() ==> (final(self).spec_bus().producer_log()
                    == old(self).spec_bus().producer_log() || (exists|ts: u64|
                    final(self).spec_bus().producer_log() == old(
                        self,
                    ).spec_bus().producer_log().push(
                        #[trigger] order_wire_record(
                            order_request.item_id,
                            order_request.quantity,
                            ts,
                        ),
                    )))
            },
            match old(self).spec_catalog().planned_response(order_request.item_id) {
                Some(resp) => match resp {
                    Ok(stock) => (r is Ok <==> order_request.quantity <= stock) && (r is Err
                        ==> r == Err::<(), PlaceOrderError>(PlaceOrderError::ItemOutOfStock)),
                    Err(_) => r == Err::<(), PlaceOrderError>(PlaceOrderError::CatalogNetworkError),
                },
                None => true,
            },
    {
        let stock = match self.catalog_network_service.get_stock(order_request.item_id) {
            Ok(s) => s,
            Err(_) => {
                return Err(PlaceOrderError::CatalogNetworkError);
            },
        };
        self.place_order_checked(order_request, stock)
    }
}

/// A committed order's notification survives the wire intact: the record
/// the coordinator publishes decodes, on the catalog side, to exactly the
/// envelope it was built from — the item and quantity arrive unchanged,
/// so the authoritative stock is eventually decremented by the ordered
/// quantity once the pump delivers the record.
pub proof fn lemma_notification_round_trip(item_id: u32, quantity: u32, ts: u64)
    ensures
        crate::wire::parse_wire(order_wire_record(item_id, quantity, ts).payload) == Some(
            order_envelope_view(item_id, quantity, ts),
        ),
{
    crate::wire::lemma_parse_wire_complete(order_envelope_view(item_id, quantity, ts));
}

/// Reads the stock count from the catalog side's response body: a bare
/// decimal number. Anything else is a deserialization failure, reported
/// with the marker status the networking layer uses for such errors.
pub fn parse_stock_body(body: &str) -> (r: Result<u32, NetworkError>)
    ensures
        match crate::text::parse_dec(body@, u32::MAX as nat) {
            Some(p) => r == (if p.1.len() == 0 {
                Ok::<u32, NetworkError>(p.0 as u32)
            } else {
                Err::<u32, NetworkError>(
                    NetworkError { status_code: Some(23), error: NetworkErrorType::JsonError },
                )
            }),
            None => r == Err::<u32, NetworkError>(
                NetworkError { status_code: Some(23), error: NetworkErrorType::JsonError },
            ),
        },
{
    let v = crate::text::str_chars(body);
    proof {
        assert(v@.skip(0) =~= body@);
    }
    match crate::text::scan_dec_u64(&v, 0, u32::MAX as u64) {
        Some((n, j)) => {
            if j == v.len() {
                proof {
                    assert(v@.skip(j as int).len() == 0);
                }
                Ok(n as u32)
            } else {
                Err(NetworkError { status_code: Some(23), error: NetworkErrorType::JsonError })
            }
        },
        None => Err(NetworkError { status_code: Some(23), error: NetworkErrorType::JsonError }),
    }
}

/// Classifies what the transport brought back from the stock endpoint,
/// exactly as the networking layer renders it: a request that never went
/// out is a transport failure without a status; a non-success status is a
/// standard failure carrying that status; a success response stands or
/// falls with its body, an unreadable one reported under the marker
/// status the networking layer uses for deserialization failures.
pub fn classify_stock_response(sent: bool, status: u16, body: &str) -> (r: Result<
    u32,
    NetworkError,
>)
    ensures
        !sent ==> r == Err::<u32, NetworkError>(
            NetworkError { status_code: None, error: NetworkErrorType::RequestError },
        ),
        sent && !(200 <= status < 300) ==> r == Err::<u32, NetworkError>(
            NetworkError { status_code: Some(status), error: NetworkErrorType::Standard },
        ),
        sent && 200 <= status < 300 ==> match crate::text::parse_dec(body@, u32::MAX as nat) {
            Some(p) => r == (if p.1.len() == 0 {
                Ok::<u32, NetworkError>(p.0 as u32)
            } else {
                Err::<u32, NetworkError>(
                    NetworkError { status_code: Some(23), error: NetworkErrorType::JsonError },
                )
            }),
            None => r == Err::<u32, NetworkError>(
                NetworkError { status_code: Some(23), error: NetworkErrorType::JsonError },
            ),
        },
{
    if !sent {
        return Err(NetworkError { status_code: None, error: NetworkErrorType::RequestError });
    }
    if status < 200 || status >= 300 {
        return Err(NetworkError { status_code: Some(status), error: NetworkErrorType::Standard });
    }
    parse_stock_body(body)
}

/// The order endpoint's body for each outcome of placing an order: a
/// confirmation naming the customer and address, or the message of the
/// error that stopped the order.
pub fn place_order_message(result: &Result<(), PlaceOrderError>, order_request: &OrderRequest) -> (
    m: String)
    ensures
        match result {
            Ok(_) => m@ == "Order has been placed successfully! It's on its way to: "@
                + order_request.name@ + " at "@ + order_request.address@,
            Err(PlaceOrderError::ItemOutOfStock) => m@ == "This item is out of stock"@,
            Err(PlaceOrderError::CatalogNetworkError) => m@
                == "An error occurred and some of our systems are down, please try again later."@,
        },
{
    match result {
        Ok(_) => {
            let mut s = String::new();
            s.append("Order has been placed successfully! It's on its way to: ");
            s.append(order_request.name.as_str());
            s.append(" at ");
            s.append(order_request.address.as_str());
            s
        },
        Err(PlaceOrderError::ItemOutOfStock) => "This item is out of stock".to_owned(),
        Err(PlaceOrderError::CatalogNetworkError) => {
            "An error occurred and some of our systems are down, please try again later.".to_owned()
        },
    }
}

} // verus!

