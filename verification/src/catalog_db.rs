//! The catalog side's store: one record per item, the stock quantity its
//! only mutable part. Prices are held in integer cents.

use vstd::prelude::*;

verus! {

/// One catalog item. `stock` is the sole mutable field.
#[derive(Debug, Clone)]
pub struct ClothingItem {
    pub id: u32,
    pub name: String,
    pub description: String,
    pub sizes: Vec<String>,
    pub price_cents: u32,
    pub stock: u32,
    pub images: Vec<String>,
    pub video: String,
}

/// The same item with its stock replaced.
pub open spec fn with_stock(item: ClothingItem, stock: u32) -> ClothingItem {
    ClothingItem { stock, ..item }
}

/// The first item in `s` with the given id, if any.
pub open spec fn find_item(s: Seq<ClothingItem>, id: u32) -> Option<ClothingItem>
    decreases s.len(),
{
    if s.len() == 0 {
        None
    } else if s[0].id == id {
        Some(s[0])
    } else {
        find_item(s.skip(1), id)
    }
}

/// Where the first match sits, the lookup returns that element.
pub proof fn lemma_find_item_at(s: Seq<ClothingItem>, id: u32, i: int)
    requires
        0 <= i < s.len(),
        forall|k: int| 0 <= k < i ==> (#[trigger] s[k]).id != id,
        s[i].id == id,
    ensures
        find_item(s, id) == Some(s[i]),
    decreases i,
{
    if i == 0 {
    } else {
        let t = s.skip(1);
        assert(forall|k: int| 0 <= k < i - 1 ==> #[trigger] t[k] == s[k + 1]);
        assert(t[i - 1] == s[i]);
        lemma_find_item_at(t, id, i - 1);
    }
}

/// Replacing one element with another of the same id leaves every other
/// lookup unchanged.
pub proof fn lemma_find_item_update_same_id(s: Seq<ClothingItem>, i: int, x: ClothingItem, id: u32)
    requires
        0 <= i < s.len(),
        s[i].id == x.id,
        id != x.id,
    ensures
        find_item(s.update(i, x), id) == find_item(s, id),
    decreases s.len(),
{
    let s2 = s.update(i, x);
    if s.len() == 0 {
    } else if i == 0 {
        assert(s2[0] == x);
        assert(s2.skip(1) =~= s.skip(1));
    } else {
        assert(s2[0] == s[0]);
        assert(s2.skip(1) =~= s.skip(1).update(i - 1, x));
        lemma_find_item_update_same_id(s.skip(1), i - 1, x, id);
    }
}

/// Appending an item changes only the lookup of its own id, and that only
/// when the id was absent.
pub proof fn lemma_find_item_push(s: Seq<ClothingItem>, x: ClothingItem, id: u32)
    ensures
        find_item(s, id) is Some ==> find_item(s.push(x), id) == find_item(s, id),
        find_item(s, id) is None && x.id == id ==> find_item(s.push(x), id) == Some(x),
        find_item(s, id) is None && x.id != id ==> find_item(s.push(x), id) is None,
    decreases s.len(),
{
    let s2 = s.push(x);
    if s.len() == 0 {
        assert(s2[0] == x);
        assert(s2.skip(1) =~= Seq::<ClothingItem>::empty());
        assert(find_item(Seq::<ClothingItem>::empty(), id) is None);
    } else {
        assert(s2[0] == s[0]);
        assert(s2.skip(1) =~= s.skip(1).push(x));
        lemma_find_item_push(s.skip(1), x, id);
    }
}

/// The storage interface of the catalog side. `CatalogDbClient` is the
/// development store preloaded with sample items; `MockCatalogDb` is a
/// scripted test double.
pub trait CatalogDb: Sized {
    /// The implementation's internal consistency; established by its
    /// constructor, preserved by every method.
    spec fn inv(&self) -> bool;

    /// What a lookup returns for each id.
    spec fn spec_get_item(&self, id: u32) -> Option<ClothingItem>;

    /// Every item on file, in iteration order.
    spec fn spec_catalog(&self) -> Seq<ClothingItem>;

    /// Creates the store, preloading whatever it starts with.
    fn new() -> (db: Self)
        ensures
            db.inv(),
    ;

    /// Looks an item up by its id.
    fn get_item<'a>(&'a self, id: u32) -> (r: Option<&'a ClothingItem>)
        requires
            self.inv(),
        ensures
            match r {
                Some(it) => self.spec_get_item(id) == Some(*it),
                None => self.spec_get_item(id) is None,
            },
    ;

    /// Puts an item on file under its id.
    fn add_item(&mut self, item: ClothingItem)
        requires
            old(self).inv(),
        ensures
            final(self).inv(),
    ;

    /// Sets the stock of the item with the given id; reports whether the
    /// item exists. This is the store's one mutation of an item on file.
    fn update_stock(&mut self, id: u32, new_stock: u32) -> (r: bool)
        requires
            old(self).inv(),
        ensures
            final(self).inv(),
            r == (old(self).spec_get_item(id) is Some),
            r ==> final(self).spec_get_item(id) == Some(
                with_stock(old(self).spec_get_item(id)->Some_0, new_stock),
            ),
            !r ==> *final(self) == *old(self),
    ;

    /// Every item on file.
    fn get_catalog<'a>(&'a self) -> (r: Vec<&'a ClothingItem>)
        requires
            self.inv(),
        ensures
            r@.len() == self.spec_catalog().len(),
            forall|i: int| 0 <= i < r@.len() ==> *(#[trigger] r@[i]) == self.spec_catalog()[i],
    ;
}

/// The catalog side's development store: a vector of items with unique
/// ids, preloaded with five sample items.
pub struct CatalogDbClient {
    items: Vec<ClothingItem>,
}

impl CatalogDbClient {
    /// The index of the item with the given id, if any.
    fn find_index(&self, id: u32) -> (r: Option<usize>)
        ensures
            match r {
                Some(i) => i < self.items@.len() && self.items@[i as int].id == id && find_item(
                    self.items@,
                    id,
                ) == Some(self.items@[i as int]),
                None => find_item(self.items@, id) is None,
            },
    {
        let n = self.items.len();
        proof {
            assert(self.items@.skip(0) =~= self.items@);
        }
        let mut i: usize = 0;
        while i < n
            invariant
                i <= n == self.items@.len(),
                forall|k: int| 0 <= k < i ==> (#[trigger] self.items@[k]).id != id,
                find_item(self.items@, id) == find_item(self.items@.skip(i as int), id),
            decreases n - i,
        {
            proof {
                assert(self.items@.skip(i as int)[0] == self.items@[i as int]);
                assert(self.items@.skip(i as int).skip(1) =~= self.items@.skip(i + 1 as int));
            }
            if self.items[i].id == id {
                return Some(i);
            }
            i += 1;
        }
        proof {
            assert(self.items@.skip(n as int).len() == 0);
        }
        None
    }
}

impl CatalogDb for CatalogDbClient {
    /// No two items on file share an id.
    closed spec fn inv(&self) -> bool {
        forall|i: int, j: int|
            0 <= i < j < self.items@.len() ==> (#[trigger] self.items@[i]).id != (
            #[trigger] self.items@[j]).id
    }

    closed spec fn spec_get_item(&self, id: u32) -> Option<ClothingItem> {
        find_item(self.items@, id)
    }

    closed spec fn spec_catalog(&self) -> Seq<ClothingItem> {
        self.items@
    }

    /// The development store starts with five sample items, ids 1 to 5.
    fn new() -> (db: Self)
        ensures
            db.spec_catalog().len() == 5,
            db.spec_get_item(1) is Some && db.spec_get_item(1)->Some_0.stock == 100,
            db.spec_get_item(2) is Some && db.spec_get_item(2)->Some_0.stock == 50,
            db.spec_get_item(3) is Some && db.spec_get_item(3)->Some_0.stock == 30,
            db.spec_get_item(4) is Some && db.spec_get_item(4)->Some_0.stock == 75,
            db.spec_get_item(5) is Some && db.spec_get_item(5)->Some_0.stock == 1,
            forall|id: u32| db.spec_get_item(id) is Some <==> 1 <= id <= 5,
    {
        let mut db = CatalogDbClient { items: Vec::new() };
        proof {
            assert forall|id: u32| db.spec_get_item(id) is None by {
                assert(find_item(db.items@, id) is None);
            }
        }
        let ghost d0 = db;
        let t_shirt = ClothingItem {
            id: 1,
            name: "T-Shirt".to_owned(),
            description: "Comfortable cotton t-shirt, perfect for everyday wear.".to_owned(),
            sizes: string_vec4("S", "M", "L", "XL"),
            price_cents: 2000,
            stock: 100,
            images: string_vec2(
                "https://example.com/t-shirt-front.jpg",
                "https://example.com/t-shirt-back.jpg",
            ),
            video: "https://example.com/t-shirt-video.mp4".to_owned(),
        };
        db.add_item(t_shirt);
        let ghost d1 = db;
        let jeans = ClothingItem {
            id: 2,
            name: "Jeans".to_owned(),
            description: "Classic blue denim jeans, versatile and durable.".to_owned(),
            sizes: string_vec3("30", "32", "34"),
            price_cents: 4000,
            stock: 50,
            images: string_vec2(
                "https://example.com/jeans-front.jpg",
                "https://example.com/jeans-back.jpg",
            ),
            video: "https://example.com/jeans-video.mp4".to_owned(),
        };
        db.add_item(jeans);
        let ghost d2 = db;
        let jacket = ClothingItem {
            id: 3,
            name: "Jacket".to_owned(),
            description: "Stylish and warm jacket, suitable for cold weather.".to_owned(),
            sizes: string_vec3("M", "L", "XL"),
            price_cents: 6000,
            stock: 30,
            images: string_vec2(
                "https://example.com/jacket-front.jpg",
                "https://example.com/jacket-back.jpg",
            ),
            video: "https://example.com/jacket-video.mp4".to_owned(),
        };
        db.add_item(jacket);
        let ghost d3 = db;
        let sneakers = ClothingItem {
            id: 4,
            name: "Sneakers".to_owned(),
            description: "Trendy and comfortable sneakers for casual outings.".to_owned(),
            sizes: string_vec4("8", "9", "10", "11"),
            price_cents: 5000,
            stock: 75,
            images: string_vec2(
                "https://example.com/sneakers-front.jpg",
                "https://example.com/sneakers-side.jpg",
            ),
            video: "https://example.com/sneakers-video.mp4".to_owned(),
        };
        db.add_item(sneakers);
        let ghost d4 = db;
        let cap = ClothingItem {
            id: 5,
            name: "Cap".to_owned(),
            description: "Cool and stylish baseball cap, great for sunny days.".to_owned(),
            sizes: string_vec1("One Size"),
            price_cents: 1500,
            stock: 1,
            images: string_vec2(
                "https://example.com/cap-front.jpg",
                "https://example.com/cap-back.jpg",
            ),
            video: "https://example.com/cap-video.mp4".to_owned(),
        };
        db.add_item(cap);
        proof {
            assert forall|id: u32| !(1 <= id <= 5) implies db.spec_get_item(id) is None by {
                assert(db.spec_get_item(id) == d4.spec_get_item(id));
                assert(d4.spec_get_item(id) == d3.spec_get_item(id));
                assert(d3.spec_get_item(id) == d2.spec_get_item(id));
                assert(d2.spec_get_item(id) == d1.spec_get_item(id));
                assert(d1.spec_get_item(id) == d0.spec_get_item(id));
            }
        }
        db
    }

    fn get_item<'a>(&'a self, id: u32) -> (r: Option<&'a ClothingItem>) {
        match self.find_index(id) {
            Some(i) => Some(&self.items[i]),
            None => None,
        }
    }

    fn add_item(&mut self, item: ClothingItem)
        ensures
            final(self).spec_get_item(item.id) == Some(item),
            forall|other: u32|
                other != item.id ==> final(self).spec_get_item(other) == old(self).spec_get_item(
                    other,
                ),
            old(self).spec_get_item(item.id) is None ==> final(self).spec_catalog() == old(
                self,
            ).spec_catalog().push(item),
            final(self).spec_catalog().len() == old(self).spec_catalog().len() + (
            if old(self).spec_get_item(item.id) is None {
                1int
            } else {
                0int
            }),
    {
        let ghost pre = self.items@;
        match self.find_index(item.id) {
            Some(i) => {
                proof {
                    lemma_find_item_update_stays_unique(self.items@, i as int, item);
                }
                let slot = &mut self.items[i];
                *slot = item;
                proof {
                    assert(self.items@ == pre.update(i as int, item));
                    // The ids are unique, so position `i` is the first
                    // and only occurrence of this id.
                    assert(forall|k: int|
                        0 <= k < i ==> (#[trigger] self.items@[k]).id != item.id);
                    lemma_find_item_at(self.items@, item.id, i as int);
                    assert forall|other: u32| other != item.id implies find_item(
                        self.items@,
                        other,
                    ) == find_item(pre, other) by {
                        lemma_find_item_update_same_id(pre, i as int, item, other);
                    }
                }
            },
            None => {
                proof {
                    lemma_find_item_absent_push_unique(self.items@, item);
                }
                self.items.push(item);
                proof {
                    assert(self.items@ == pre.push(item));
                    lemma_find_item_push(pre, item, item.id);
                    assert forall|other: u32| other != item.id implies find_item(
                        self.items@,
                        other,
                    ) == find_item(pre, other) by {
                        lemma_find_item_push(pre, item, other);
                    }
                }
            },
        }
    }

    fn update_stock(&mut self, id: u32, new_stock: u32) -> (r: bool) {
        match self.find_index(id) {
            Some(i) => {
                let ghost pre = self.items@;
                let ghost old_item = self.items@[i as int];
                let slot = &mut self.items[i];
                slot.stock = new_stock;
                proof {
                    assert(self.items@ == pre.update(i as int, with_stock(old_item, new_stock)));
                    assert(forall|k: int|
                        0 <= k < self.items@.len() ==> (#[trigger] self.items@[k]).id == pre[k].id);
                    assert(forall|k: int| 0 <= k < i ==> (#[trigger] self.items@[k]).id != id);
                    lemma_find_item_at(self.items@, id, i as int);
                }
                true
            },
            None => false,
        }
    }

    fn get_catalog<'a>(&'a self) -> (r: Vec<&'a ClothingItem>) {
        let n = self.items.len();
        let mut out: Vec<&ClothingItem> = Vec::new();
        let mut i: usize = 0;
        while i < n
            invariant
                i <= n == self.items@.len(),
                out@.len() == i,
                forall|k: int| 0 <= k < i ==> *(#[trigger] out@[k]) == self.items@[k],
            decreases n - i,
        {
            out.push(&self.items[i]);
            i += 1;
        }
        out
    }
}

/// Replacing a matched item keeps the ids unique and keeps every other
/// lookup unchanged.
proof fn lemma_find_item_update_stays_unique(s: Seq<ClothingItem>, i: int, x: ClothingItem)
    requires
        0 <= i < s.len(),
        s[i].id == x.id,
        forall|a: int, b: int| 0 <= a < b < s.len() ==> (#[trigger] s[a]).id != (#[trigger] s[b]).id,
    ensures
        forall|a: int, b: int|
            0 <= a < b < s.update(i, x).len() ==> (#[trigger] s.update(i, x)[a]).id != (
            #[trigger] s.update(i, x)[b]).id,
{
    assert(forall|k: int| 0 <= k < s.len() ==> (#[trigger] s.update(i, x)[k]).id == s[k].id);
}

/// Appending an item whose id is absent keeps the ids unique.
proof fn lemma_find_item_absent_push_unique(s: Seq<ClothingItem>, x: ClothingItem)
    requires
        find_item(s, x.id) is None,
        forall|a: int, b: int| 0 <= a < b < s.len() ==> (#[trigger] s[a]).id != (#[trigger] s[b]).id,
    ensures
        forall|a: int, b: int|
            0 <= a < b < s.push(x).len() ==> (#[trigger] s.push(x)[a]).id != (
            #[trigger] s.push(x)[b]).id,
{
    lemma_find_item_none_no_match(s, x.id);
    assert(forall|k: int| 0 <= k < s.len() ==> #[trigger] s.push(x)[k] == s[k]);
    assert(s.push(x)[s.len() as int] == x);
}

/// A fruitless lookup means no element carries the id.
pub proof fn lemma_find_item_none_no_match(s: Seq<ClothingItem>, id: u32)
    requires
        find_item(s, id) is None,
    ensures
        forall|k: int| 0 <= k < s.len() ==> (#[trigger] s[k]).id != id,
    decreases s.len(),
{
    if s.len() > 0 {
        lemma_find_item_none_no_match(s.skip(1), id);
        assert(forall|k: int| 1 <= k < s.len() ==> #[trigger] s[k] == s.skip(1)[k - 1]);
    }
}

/// A one-element vector of owned strings.
fn string_vec1(a: &str) -> (r: Vec<String>)
    ensures
        r@.len() == 1,
        r@[0]@ == a@,
{
    let mut v: Vec<String> = Vec::new();
    v.push(a.to_owned());
    v
}

/// A two-element vector of owned strings.
fn string_vec2(a: &str, b: &str) -> (r: Vec<String>)
    ensures
        r@.len() == 2,
        r@[0]@ == a@,
        r@[1]@ == b@,
{
    let mut v: Vec<String> = Vec::new();
    v.push(a.to_owned());
    v.push(b.to_owned());
    v
}

/// A three-element vector of owned strings.
fn string_vec3(a: &str, b: &str, c: &str) -> (r: Vec<String>)
    ensures
        r@.len() == 3,
        r@[0]@ == a@,
        r@[1]@ == b@,
        r@[2]@ == c@,
{
    let mut v: Vec<String> = Vec::new();
    v.push(a.to_owned());
    v.push(b.to_owned());
    v.push(c.to_owned());
    v
}

/// A four-element vector of owned strings.
fn string_vec4(a: &str, b: &str, c: &str, d: &str) -> (r: Vec<String>)
    ensures
        r@.len() == 4,
        r@[0]@ == a@,
        r@[1]@ == b@,
        r@[2]@ == c@,
        r@[3]@ == d@,
{
    let mut v: Vec<String> = Vec::new();
    v.push(a.to_owned());
    v.push(b.to_owned());
    v.push(c.to_owned());
    v.push(d.to_owned());
    v
}

/// A scripted test double: lookups answer with the planted item regardless
/// of the id, and the catalog is the planted list.
pub struct MockCatalogDb {
    expected_get_item: Option<ClothingItem>,
    expected_vec: Vec<ClothingItem>,
}

impl MockCatalogDb {
    /// A double with nothing planted.
    pub fn new() -> (db: MockCatalogDb)
        ensures
            db.inv(),
            forall|id: u32| db.spec_get_item(id) is None,
            db.spec_catalog() == Seq::<ClothingItem>::empty(),
    {
        let db = MockCatalogDb { expected_get_item: None, expected_vec: Vec::new() };
        db
    }

    /// Plants the item every lookup will return.
    pub fn set_expected_get_item(&mut self, item: Option<ClothingItem>)
        ensures
            final(self).inv() == old(self).inv(),
            forall|id: u32| final(self).spec_get_item(id) == item,
            final(self).spec_catalog() == old(self).spec_catalog(),
    {
        self.expected_get_item = item;
    }

    /// Plants the catalog every listing will return.
    pub fn set_expected_vec(&mut self, items: Vec<ClothingItem>)
        ensures
            final(self).inv() == old(self).inv(),
            final(self).spec_catalog() == items@,
            forall|id: u32| final(self).spec_get_item(id) == old(self).spec_get_item(id),
    {
        self.expected_vec = items;
    }
}

impl CatalogDb for MockCatalogDb {
    closed spec fn inv(&self) -> bool {
        true
    }

    closed spec fn spec_get_item(&self, id: u32) -> Option<ClothingItem> {
        self.expected_get_item
    }

    closed spec fn spec_catalog(&self) -> Seq<ClothingItem> {
        self.expected_vec@
    }

    fn new() -> (db: Self) {
        MockCatalogDb::new()
    }

    fn get_item<'a>(&'a self, id: u32) -> (r: Option<&'a ClothingItem>) {
        self.expected_get_item.as_ref()
    }

    fn add_item(&mut self, item: ClothingItem) {
    }

    fn update_stock(&mut self, id: u32, new_stock: u32) -> (r: bool) {
        match &mut self.expected_get_item {
            Some(it) => {
                it.stock = new_stock;
                true
            },
            None => false,
        }
    }

    fn get_catalog<'a>(&'a self) -> (r: Vec<&'a ClothingItem>) {
        let n = self.expected_vec.len();
        let mut out: Vec<&ClothingItem> = Vec::new();
        let mut i: usize = 0;
        while i < n
            invariant
                i <= n == self.expected_vec@.len(),
                out@.len() == i,
                forall|k: int| 0 <= k < i ==> *(#[trigger] out@[k]) == self.expected_vec@[k],
            decreases n - i,
        {
            out.push(&self.expected_vec[i]);
            i += 1;
        }
        out
    }
}

} // verus!
