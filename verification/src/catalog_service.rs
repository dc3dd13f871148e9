//! The catalog-owning service: read access to the catalog for clients,
//! and the event callback that reconciles stock against order-placed
//! notifications from the order side.

use crate::bus::{EventListener, ListenerCreationError};
use crate::catalog_db::{with_stock, CatalogDb, ClothingItem};
use crate::event::Event;
use crate::events::OrderPlacedEvent;
use crate::listener::{ConsumeError, Listener};
use crate::listener_service::ListenerService;
use crate::text::{dec_nat, dec_u64_string};
use crate::topic;
use crate::wire::parse_wire;
use vstd::prelude::*;

verus! {

/// The client-facing item record: everything but the stock, which clients
/// are not meant to see. Prices are in integer cents.
#[derive(Debug, Clone)]
pub struct ClothingItemDTO {
    pub id: u32,
    pub name: String,
    pub description: String,
    pub sizes: Vec<String>,
    pub price_cents: u32,
    pub images: Vec<String>,
    pub video: String,
}

/// The transfer record carries exactly the item's data, stock excluded.
pub open spec fn dto_matches(d: ClothingItemDTO, item: ClothingItem) -> bool {
    &&& d.id == item.id
    &&& d.name@ == item.name@
    &&& d.description@ == item.description@
    &&& d.sizes@ == item.sizes@
    &&& d.price_cents == item.price_cents
    &&& d.images@ == item.images@
    &&& d.video@ == item.video@
}

/// Copies a vector of strings; the copy has the same entries.
fn clone_strings(v: &Vec<String>) -> (r: Vec<String>)
    ensures
        r@ == v@,
{
    let mut r: Vec<String> = Vec::new();
    let mut i: usize = 0;
    while i < v.len()
        invariant
            i <= v@.len(),
            r@ == v@.take(i as int),
        decreases v@.len() - i,
    {
        r.push(v[i].clone());
        proof {
            assert(r@ =~= v@.take(i + 1 as int));
        }
        i += 1;
    }
    proof {
        assert(v@.take(v@.len() as int) =~= v@);
    }
    r
}

impl ClothingItemDTO {
    /// The transfer record for an item.
    pub fn from_item(item: &ClothingItem) -> (d: ClothingItemDTO)
        ensures
            dto_matches(d, *item),
    {
        ClothingItemDTO {
            id: item.id,
            name: item.name.clone(),
            description: item.description.clone(),
            sizes: clone_strings(&item.sizes),
            price_cents: item.price_cents,
            images: clone_strings(&item.images),
            video: item.video.clone(),
        }
    }
}

/// A direct lookup named an item id that is not on file.
#[derive(Clone, Copy, Debug, PartialEq, Eq, Structural)]
pub struct ItemNotFoundError;

/// The items a catalog listing offers: the ones with stock, store order
/// kept, items with zero stock omitted.
pub open spec fn available_items(s: Seq<ClothingItem>) -> Seq<ClothingItem>
    decreases s.len(),
{
    if s.len() == 0 {
        Seq::empty()
    } else if s.last().stock > 0 {
        available_items(s.drop_last()).push(s.last())
    } else {
        available_items(s.drop_last())
    }
}

/// How the catalog side reconciled one order-placed payload.
#[derive(Clone, Copy, Debug, PartialEq, Eq, Structural)]
pub enum StockUpdateOutcome {
    /// The stock was decremented by the ordered quantity.
    Applied,
    /// The order exceeds the current stock: the decrement is not applied
    /// and the stock is left unchanged — a reconciliation error. The
    /// authoritative store is now inconsistent with the order already
    /// committed on the other side; no rollback or retry follows.
    InsufficientStock,
    /// No item with that id is on file; nothing happens.
    UnknownItem,
}

/// The catalog service: the authoritative stock store, the bus it listens
/// on, and — once started — its own fan-out listener and receiver.
pub struct CatalogService<E: EventListener, D: CatalogDb> {
    event_bus: E,
    db: D,
    listener: Option<Listener>,
    receiver: usize,
}

impl<E: EventListener, D: CatalogDb> CatalogService<E, D> {
    /// The item store.
    pub closed spec fn spec_db(&self) -> D {
        self.db
    }

    /// The bus the service listens on.
    pub closed spec fn spec_bus(&self) -> E {
        self.event_bus
    }

    /// The service's listener, once started.
    pub closed spec fn spec_listener(&self) -> Option<Listener> {
        self.listener
    }

    /// The service's receiver handle on its listener.
    pub closed spec fn spec_receiver(&self) -> usize {
        self.receiver
    }

    /// The service is consistent: the store's invariant holds, and once
    /// the listener runs, the service's receiver is registered and its
    /// queue is drained between pump steps.
    pub open spec fn wf(&self) -> bool {
        &&& self.spec_db().inv()
        &&& match self.spec_listener() {
            Some(l) => {
                &&& self.spec_receiver() < l.queues().len()
                &&& l.queues()[self.spec_receiver() as int].len() == 0
                &&& l.capacity_spec() >= 1
            },
            None => true,
        }
    }

    /// A service over the given store and bus; no listener yet.
    pub fn new(db: D, event_bus: E) -> (s: CatalogService<E, D>)
        ensures
            s.spec_db() == db,
            s.spec_bus() == event_bus,
            s.spec_listener() is None,
    {
        CatalogService { event_bus, db, listener: None, receiver: 0 }
    }

    /// The items currently available for purchase: every item with stock,
    /// as client-facing records, items with zero stock omitted.
    pub fn get_items(&self) -> (r: Vec<ClothingItemDTO>)
        requires
            self.spec_db().inv(),
        ensures
            r@.len() == available_items(self.spec_db().spec_catalog()).len(),
            forall|i: int|
                0 <= i < r@.len() ==> dto_matches(
                    #[trigger] r@[i],
                    available_items(self.spec_db().spec_catalog())[i],
                ),
    {
        let items = self.db.get_catalog();
        let ghost cat = self.spec_db().spec_catalog();
        let n = items.len();
        let mut out: Vec<ClothingItemDTO> = Vec::new();
        let mut i: usize = 0;
        while i < n
            invariant
                i <= n,
                n == items@.len() == cat.len(),
                forall|k: int| 0 <= k < n ==> *(#[trigger] items@[k]) == cat[k],
                out@.len() == available_items(cat.take(i as int)).len(),
                forall|k: int|
                    0 <= k < out@.len() ==> dto_matches(
                        #[trigger] out@[k],
                        available_items(cat.take(i as int))[k],
                    ),
            decreases n - i,
        {
            proof {
                assert(cat.take(i + 1 as int).drop_last() =~= cat.take(i as int));
                assert(cat.take(i + 1 as int).last() == cat[i as int]);
            }
            let item = items[i];
            if item.stock > 0 {
                out.push(ClothingItemDTO::from_item(item));
            }
            i += 1;
        }
        proof {
            assert(cat.take(cat.len() as int) =~= cat);
        }
        out
    }

    /// The current stock of one item, or `ItemNotFoundError` exactly when
    /// no item with that id is on file.
    pub fn get_stock(&self, item_id: u32) -> (r: Result<u32, ItemNotFoundError>)
        requires
            self.spec_db().inv(),
        ensures
            match self.spec_db().spec_get_item(item_id) {
                Some(item) => r == Ok::<u32, ItemNotFoundError>(item.stock),
                None => r == Err::<u32, ItemNotFoundError>(ItemNotFoundError),
            },
    {
        match self.db.get_item(item_id) {
            Some(item) => Ok(item.stock),
            None => Err(ItemNotFoundError),
        }
    }

    /// The stock endpoint's body: the stock count as text, or the
    /// does-not-exist message for an unknown id.
    pub fn render_stock_response(&self, item_id: u32) -> (m: String)
        requires
            self.spec_db().inv(),
        ensures
            match self.spec_db().spec_get_item(item_id) {
                Some(item) => m@ == dec_nat(item.stock as nat),
                None => m@ == "This item does not exist."@,
            },
    {
        match self.get_stock(item_id) {
            Ok(s) => dec_u64_string(s as u64),
            Err(_) => item_not_found_message().to_owned(),
        }
    }

    /// Applies one order-placed payload to the authoritative store: the
    /// stock is decremented by the ordered quantity; an order exceeding
    /// the current stock is not applied (the stock never goes below
    /// zero) and reported as a reconciliation error; an unknown item id
    /// changes nothing.
    pub fn apply_order_placed(&mut self, event: &Event<OrderPlacedEvent>) -> (r:
        StockUpdateOutcome)
        requires
            old(self).spec_db().inv(),
        ensures
            final(self).spec_db().inv(),
            final(self).spec_bus() == old(self).spec_bus(),
            final(self).spec_listener() == old(self).spec_listener(),
            final(self).spec_receiver() == old(self).spec_receiver(),
            match old(self).spec_db().spec_get_item(event.payload.item_id) {
                None => r == StockUpdateOutcome::UnknownItem && final(self).spec_db() == old(
                    self,
                ).spec_db(),
                Some(item) => if event.payload.quantity > item.stock {
                    r == StockUpdateOutcome::InsufficientStock && final(self).spec_db() == old(
                        self,
                    ).spec_db()
                } else {
                    r == StockUpdateOutcome::Applied && final(self).spec_db().spec_get_item(
                        event.payload.item_id,
                    ) == Some(
                        with_stock(item, (item.stock - event.payload.quantity) as u32),
                    )
                },
            },
    {
        let item_id = event.payload.item_id;
        let quantity = event.payload.quantity;
        let stock_now: u32 = match self.db.get_item(item_id) {
            Some(it) => it.stock,
            None => {
                return StockUpdateOutcome::UnknownItem;
            },
        };
        if quantity > stock_now {
            // The reconciliation error: the decrement would drive the
            // stock negative, so it is not applied at all.
            return StockUpdateOutcome::InsufficientStock;
        }
        let updated = self.db.update_stock(item_id, stock_now - quantity);
        proof {
            assert(updated);
        }
        StockUpdateOutcome::Applied
    }

    /// One pump step: hands a payload received on the wire to the
    /// listener and, if an envelope came through, reconciles the stock
    /// with it. A malformed payload halts the pump; afterwards every
    /// payload is ignored.
    pub fn process_message(&mut self, payload: &str) -> (r: Result<
        StockUpdateOutcome,
        ConsumeError,
    >)
        requires
            old(self).wf(),
            old(self).spec_listener() is Some,
        ensures
            final(self).wf(),
            final(self).spec_listener() is Some,
            old(self).spec_listener()->Some_0.is_halted() ==> r == Err::<
                StockUpdateOutcome,
                ConsumeError,
            >(ConsumeError::Halted) && final(self).spec_db() == old(self).spec_db()
                && final(self).spec_listener()->Some_0.is_halted(),
            !old(self).spec_listener()->Some_0.is_halted() && parse_wire(payload@) is None ==> r
                == Err::<StockUpdateOutcome, ConsumeError>(ConsumeError::Deserialization)
                && final(self).spec_db() == old(self).spec_db()
                && final(self).spec_listener()->Some_0.is_halted(),
            !old(self).spec_listener()->Some_0.is_halted() ==> (parse_wire(payload@)
                matches Some(m) ==> {
                &&& !final(self).spec_listener()->Some_0.is_halted()
                &&& match old(self).spec_db().spec_get_item(m.payload.item_id) {
                    None => r == Ok::<StockUpdateOutcome, ConsumeError>(
                        StockUpdateOutcome::UnknownItem)
                        && final(self).spec_db() == old(self).spec_db(),
                    Some(item) => if m.payload.quantity > item.stock {
                        r == Ok::<StockUpdateOutcome, ConsumeError>(
                            StockUpdateOutcome::InsufficientStock)
                            && final(self).spec_db() == old(self).spec_db()
                    } else {
                        r == Ok::<StockUpdateOutcome, ConsumeError>(StockUpdateOutcome::Applied)
                            && final(self).spec_db().spec_get_item(m.payload.item_id) == Some(
                            with_stock(item, (item.stock - m.payload.quantity) as u32))
                    },
                }
            }),
    {
        let receiver = self.receiver;
        let status = match &mut self.listener {
            Some(l) => l.on_message(payload),
            None => Err(ConsumeError::Transport),
        };
        match status {
            Err(e) => Err(e),
            Ok(()) => {
                let ev = match &mut self.listener {
                    Some(l) => l.recv(receiver),
                    None => None,
                };
                match ev {
                    Some(e) => Ok(self.apply_order_placed(&e)),
                    None => Err(ConsumeError::Transport),
                }
            },
        }
    }
}

impl<E: EventListener, D: CatalogDb> ListenerService for CatalogService<E, D> {
    /// Opens the service's one subscription — consumer group `group-1`
    /// on the order-placed topic — and registers the service's own
    /// receiver on the new listener.
    fn start_event_listeners(&mut self) -> (r: Result<(), ListenerCreationError>)
        ensures
            final(self).spec_db() == old(self).spec_db(),
            final(self).spec_bus() == old(self).spec_bus(),
            old(self).spec_bus().listener_creation_fails() ==> r is Err && final(self).spec_listener() == old(self).spec_listener(),
            !old(self).spec_bus().listener_creation_fails() ==> r is Ok && final(self).spec_listener() is Some && final(self).spec_receiver() == 0 && {
                let l = final(self).spec_listener()->Some_0;
                &&& !l.is_halted()
                &&& l.queues().len() == 1
                &&& l.queues()[0].len() == 0
                &&& l.capacity_spec() == old(self).spec_bus().listener_capacity()
            },
    {
        let mut topics: Vec<&str> = Vec::new();
        topics.push(topic::order_placed());
        match self.event_bus.create_event_listener("group-1", topics.as_slice()) {
            Err(e) => Err(e),
            Ok(mut l) => {
                let rx = l.get_receiver();
                self.receiver = rx;
                self.listener = Some(l);
                Ok(())
            },
        }
    }
}

/// The catalog listing's fallback body when nothing is in stock.
pub fn out_of_stock_message() -> (m: &'static str)
    ensures
        m@ == "We are out of stock on everything, sorry!"@,
{
    "We are out of stock on everything, sorry!"
}

/// The stock endpoint's body for an id that is not on file.
pub fn item_not_found_message() -> (m: &'static str)
    ensures
        m@ == "This item does not exist."@,
{
    "This item does not exist."
}

} // verus!
