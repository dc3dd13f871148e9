//! The order side's store: committed orders under unique, monotonically
//! increasing ids, assigned by the store itself.

use crate::text::{dec_nat, dec_u64_string};
use vstd::prelude::*;

verus! {

/// An incoming request to place an order.
#[derive(Debug, Clone)]
pub struct OrderRequest {
    pub item_id: u32,
    pub name: String,
    pub address: String,
    pub quantity: u32,
}

impl OrderRequest {
    /// An identical copy of the request.
    pub fn duplicate(&self) -> (r: OrderRequest)
        ensures
            r == *self,
    {
        OrderRequest {
            item_id: self.item_id,
            name: self.name.clone(),
            address: self.address.clone(),
            quantity: self.quantity,
        }
    }

    /// A short description of the request, for logs.
    pub fn describe(&self) -> (s: String)
        ensures
            s@ == "OrderReq = ItemId: "@ + dec_nat(self.item_id as nat) + ", Quantity: "@
                + dec_nat(self.quantity as nat),
    {
        let mut s = String::new();
        s.append("OrderReq = ItemId: ");
        s.append(dec_u64_string(self.item_id as u64).as_str());
        s.append(", Quantity: ");
        s.append(dec_u64_string(self.quantity as u64).as_str());
        s
    }
}

/// One committed order. Created once, never mutated, never deleted.
#[derive(Debug, Clone)]
pub struct Order {
    pub order_id: u32,
    pub item_id: u32,
    pub name: String,
    pub address: String,
    pub quantity: u32,
}

impl Order {
    /// The order committed for `order_request` under `order_id`.
    pub fn new(order_id: u32, order_request: OrderRequest) -> (o: Order)
        ensures
            o == spec_order(order_id, order_request),
    {
        Order {
            order_id,
            item_id: order_request.item_id,
            name: order_request.name,
            address: order_request.address,
            quantity: order_request.quantity,
        }
    }
}

/// The order that committing `r` under `order_id` produces.
pub open spec fn spec_order(order_id: u32, r: OrderRequest) -> Order {
    Order {
        order_id,
        item_id: r.item_id,
        name: r.name,
        address: r.address,
        quantity: r.quantity,
    }
}

/// The first order in `s` with the given id, if any.
pub open spec fn find_order(s: Seq<Order>, order_id: u32) -> Option<Order>
    decreases s.len(),
{
    if s.len() == 0 {
        None
    } else if s[0].order_id == order_id {
        Some(s[0])
    } else {
        find_order(s.skip(1), order_id)
    }
}

/// Appending an order changes only the lookup of its own id, and that
/// only when the id was absent.
pub proof fn lemma_find_order_push(s: Seq<Order>, x: Order, order_id: u32)
    ensures
        find_order(s, order_id) is Some ==> find_order(s.push(x), order_id) == find_order(
            s,
            order_id,
        ),
        find_order(s, order_id) is None && x.order_id == order_id ==> find_order(
            s.push(x),
            order_id,
        ) == Some(x),
        find_order(s, order_id) is None && x.order_id != order_id ==> find_order(
            s.push(x),
            order_id,
        ) is None,
    decreases s.len(),
{
    let s2 = s.push(x);
    if s.len() == 0 {
        assert(s2[0] == x);
        assert(s2.skip(1) =~= Seq::<Order>::empty());
        assert(find_order(Seq::<Order>::empty(), order_id) is None);
    } else {
        assert(s2[0] == s[0]);
        assert(s2.skip(1) =~= s.skip(1).push(x));
        lemma_find_order_push(s.skip(1), x, order_id);
    }
}

/// The storage interface of the order side. `OrderDbClient` is the real
/// store; `MockOrderDb` is a scripted test double, which is why most
/// guarantees are conditional on `records_orders`.
pub trait OrderDb: Sized {
    /// The implementation's internal consistency; established by its
    /// constructor, preserved by every method.
    spec fn inv(&self) -> bool;

    /// The committed orders, oldest first, if this store records them.
    spec fn orders_seq(&self) -> Seq<Order>;

    /// The id assigned to the most recently committed order; the next
    /// order receives the id one above it.
    spec fn latest_id(&self) -> u32;

    /// Whether this implementation faithfully stores committed orders.
    spec fn records_orders(&self) -> bool;

    /// Whether one more order can be accepted (its id still fits).
    spec fn can_accept(&self) -> bool;

    /// What a lookup returns for each id.
    spec fn spec_get_order(&self, order_id: u32) -> Option<Order>;

    /// Commits `order_request` under the next id. Id assignment and
    /// insertion are one atomic step with respect to the exclusive
    /// borrow of the store.
    fn add_order(&mut self, order_request: OrderRequest)
        requires
            old(self).inv(),
            old(self).can_accept(),
        ensures
            final(self).inv(),
            final(self).records_orders() == old(self).records_orders(),
            old(self).records_orders() ==> {
                &&& final(self).latest_id() == old(self).latest_id() + 1
                &&& final(self).orders_seq() == old(self).orders_seq().push(
                    spec_order((old(self).latest_id() + 1) as u32, order_request),
                )
                &&& final(self).can_accept() <==> old(self).latest_id() + 1 < u32::MAX
            },
            !old(self).records_orders() ==> final(self).can_accept() == old(self).can_accept(),
    ;

    /// Looks an order up by its id.
    fn get_order<'a>(&'a self, order_id: u32) -> (r: Option<&'a Order>)
        requires
            self.inv(),
        ensures
            match r {
                Some(o) => self.spec_get_order(order_id) == Some(*o),
                None => self.spec_get_order(order_id) is None,
            },
    ;
}

/// The order side's store: orders in commit order, ids assigned 1, 2, 3, …
/// by the store itself.
pub struct OrderDbClient {
    latest_order_id: u32,
    orders: Vec<Order>,
}

impl OrderDbClient {
    /// The id counter, for inspection.
    pub fn current_latest_order_id(&self) -> (r: u32)
        ensures
            r == self.latest_id(),
    {
        self.latest_order_id
    }

    /// How many orders have been committed.
    pub fn order_count(&self) -> (r: usize)
        ensures
            r == self.orders_seq().len(),
    {
        self.orders.len()
    }

    /// An empty store; the first order will receive id 1.
    pub fn new() -> (db: OrderDbClient)
        ensures
            db.inv(),
            db.latest_id() == 0,
            db.orders_seq() == Seq::<Order>::empty(),
            db.records_orders(),
            db.can_accept(),
    {
        OrderDbClient { latest_order_id: 0, orders: Vec::new() }
    }
}

impl OrderDb for OrderDbClient {
    /// The ids on file are exactly 1 through `latest_order_id`, in order.
    closed spec fn inv(&self) -> bool {
        &&& self.orders@.len() == self.latest_order_id
        &&& forall|i: int|
            0 <= i < self.orders@.len() ==> (#[trigger] self.orders@[i]).order_id == i + 1
    }

    closed spec fn orders_seq(&self) -> Seq<Order> {
        self.orders@
    }

    closed spec fn latest_id(&self) -> u32 {
        self.latest_order_id
    }

    closed spec fn records_orders(&self) -> bool {
        true
    }

    closed spec fn can_accept(&self) -> bool {
        self.latest_order_id < u32::MAX
    }

    closed spec fn spec_get_order(&self, order_id: u32) -> Option<Order> {
        find_order(self.orders@, order_id)
    }

    fn add_order(&mut self, order_request: OrderRequest) {
        self.latest_order_id = self.latest_order_id + 1;
        let order = Order::new(self.latest_order_id, order_request);
        self.orders.push(order);
    }

    fn get_order<'a>(&'a self, order_id: u32) -> (r: Option<&'a Order>) {
        let n = self.orders.len();
        proof {
            assert(self.orders@.skip(0) =~= self.orders@);
        }
        let mut i: usize = 0;
        while i < n
            invariant
                i <= n == self.orders@.len(),
                find_order(self.orders@, order_id) == find_order(
                    self.orders@.skip(i as int),
                    order_id,
                ),
            decreases n - i,
        {
            proof {
                assert(self.orders@.skip(i as int)[0] == self.orders@[i as int]);
                assert(self.orders@.skip(i as int).skip(1) =~= self.orders@.skip(i + 1 as int));
            }
            if self.orders[i].order_id == order_id {
                return Some(&self.orders[i]);
            }
            i += 1;
        }
        proof {
            assert(self.orders@.skip(n as int).len() == 0);
        }
        None
    }
}

/// In a well-formed store the committed ids are strictly increasing: no
/// two orders ever share an id, and later orders have larger ids.
pub proof fn lemma_order_ids_strictly_increasing(db: OrderDbClient)
    requires
        db.inv(),
    ensures
        forall|i: int, j: int|
            0 <= i < j < db.orders_seq().len() ==> (#[trigger] db.orders_seq()[i]).order_id < (
            #[trigger] db.orders_seq()[j]).order_id,
{
}

/// In the real store a lookup is exactly the first-match search over the
/// recorded orders, so what `add_order` appends is what `get_order`
/// finds.
pub proof fn lemma_order_lookup(db: OrderDbClient, order_id: u32)
    ensures
        db.spec_get_order(order_id) == find_order(db.orders_seq(), order_id),
{
}

/// The real store always records its orders, and accepts one exactly
/// while the id counter has room.
pub proof fn lemma_order_db_client_records(db: OrderDbClient)
    ensures
        db.records_orders(),
        db.can_accept() <==> db.latest_id() < u32::MAX,
{
}

/// A scripted test double: `get_order` answers with whatever order the
/// test planted, regardless of the id; nothing is ever stored.
pub struct MockOrderDb {
    expected_order: Option<Order>,
}

impl MockOrderDb {
    /// A double with no planted order.
    pub fn new() -> (db: MockOrderDb)
        ensures
            forall|id: u32| db.spec_get_order(id) is None,
            db.inv(),
            db.can_accept(),
            !db.records_orders(),
    {
        MockOrderDb { expected_order: None }
    }

    /// Plants the order every lookup will return.
    pub fn set_expected_order(&mut self, order: Option<Order>)
        ensures
            forall|id: u32| final(self).spec_get_order(id) == order,
            final(self).inv(),
            final(self).can_accept(),
            !final(self).records_orders(),
    {
        self.expected_order = order;
    }
}

impl OrderDb for MockOrderDb {
    closed spec fn inv(&self) -> bool {
        true
    }

    closed spec fn orders_seq(&self) -> Seq<Order> {
        Seq::empty()
    }

    closed spec fn latest_id(&self) -> u32 {
        0
    }

    closed spec fn records_orders(&self) -> bool {
        false
    }

    closed spec fn can_accept(&self) -> bool {
        true
    }

    closed spec fn spec_get_order(&self, order_id: u32) -> Option<Order> {
        self.expected_order
    }

    fn add_order(&mut self, order_request: OrderRequest) {
    }

    fn get_order<'a>(&'a self, order_id: u32) -> (r: Option<&'a Order>) {
        self.expected_order.as_ref()
    }
}

} // verus!
