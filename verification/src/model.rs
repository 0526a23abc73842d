//! The mathematical model of the entity store.
//!
//! [`StoreView`] is the ghost image of the store: three id-keyed maps of
//! entity views plus the allocator counter. The spec functions here describe
//! the store's well-formedness invariant and the exact effect of every
//! operation; the executable operations' contracts and the proved laws are
//! both stated over them.

use vstd::prelude::*;

use crate::types::BusinessPayloadView;
use crate::types::BusinessView;
use crate::types::OrderView;
use crate::types::ProductPayloadView;
use crate::types::ProductView;

verus! {

/// Ghost image of the whole store.
#[verifier::ext_equal]
pub struct StoreView {
    /// The last id handed out; ids are allocated as `counter + 1`.
    pub counter: u64,
    pub businesses: Map<u64, BusinessView>,
    pub products: Map<u64, ProductView>,
    pub orders: Map<u64, OrderView>,
}

/// The sum of the prices of a sequence of Product snapshots.
pub open spec fn prices_total(products: Seq<ProductView>) -> int
    decreases products.len(),
{
    if products.len() == 0 {
        0
    } else {
        prices_total(products.drop_last()) + products.last().price
    }
}

/// The sum of the prices of the Products that `ids` resolves to in
/// `products`; an id that resolves to nothing contributes nothing.
pub open spec fn ids_price_total(products: Map<u64, ProductView>, ids: Seq<u64>) -> int
    decreases ids.len(),
{
    if ids.len() == 0 {
        0
    } else {
        ids_price_total(products, ids.drop_last()) + (if products.contains_key(ids.last()) {
            products[ids.last()].price as int
        } else {
            0
        })
    }
}

/// Whether every id in `ids` resolves to a Product in `products`.
pub open spec fn all_products_exist(products: Map<u64, ProductView>, ids: Seq<u64>) -> bool {
    forall|i: int| 0 <= i < ids.len() ==> products.contains_key(#[trigger] ids[i])
}

/// Whether `j` is the position of the first id in `ids` that resolves to no
/// Product in `products`.
pub open spec fn is_first_missing(
    products: Map<u64, ProductView>,
    ids: Seq<u64>,
    j: int,
) -> bool {
    &&& 0 <= j < ids.len()
    &&& !products.contains_key(ids[j])
    &&& forall|k: int| 0 <= k < j ==> products.contains_key(#[trigger] ids[k])
}

/// The by-value snapshots that `ids` takes from `products` (meaningful when
/// every id resolves).
pub open spec fn order_snapshots(
    products: Map<u64, ProductView>,
    ids: Seq<u64>,
) -> Seq<ProductView> {
    Seq::new(ids.len(), |i: int| products[ids[i]])
}

/// The Business created from `payload` by `owner` at time `now`.
pub open spec fn new_business(
    id: u64,
    payload: BusinessPayloadView,
    owner: Seq<char>,
    now: u64,
) -> BusinessView {
    BusinessView {
        id,
        name: payload.name,
        owner_principal: owner,
        description: payload.description,
        address: payload.address,
        created_at: now,
        updated_at: None,
        products_ids: Seq::empty(),
    }
}

/// `b` with its mutable fields replaced from `payload` at time `now`;
/// identity, owner, creation time and owned Products are untouched.
pub open spec fn business_updated(
    b: BusinessView,
    payload: BusinessPayloadView,
    now: u64,
) -> BusinessView {
    BusinessView {
        name: payload.name,
        description: payload.description,
        address: payload.address,
        updated_at: Some(now),
        ..b
    }
}

/// `b` with `pid` appended to its owned Products.
pub open spec fn business_with_product(b: BusinessView, pid: u64) -> BusinessView {
    BusinessView { products_ids: b.products_ids.push(pid), ..b }
}

/// `b` with `pid` struck from its owned Products.
pub open spec fn business_without_product(b: BusinessView, pid: u64) -> BusinessView {
    BusinessView { products_ids: b.products_ids.remove_value(pid), ..b }
}

/// The Product created from `payload` at time `now`.
pub open spec fn new_product(id: u64, payload: ProductPayloadView, now: u64) -> ProductView {
    ProductView {
        id,
        business_id: payload.business_id,
        name: payload.name,
        description: payload.description,
        price: payload.price,
        created_at: now,
        updated_at: None,
    }
}

/// `p` with its mutable fields replaced from `payload` at time `now`;
/// identity, owning Business and creation time are untouched.
pub open spec fn product_updated(
    p: ProductView,
    payload: ProductPayloadView,
    now: u64,
) -> ProductView {
    ProductView {
        name: payload.name,
        description: payload.description,
        price: payload.price,
        updated_at: Some(now),
        ..p
    }
}

/// The Order created by `client` at time `now`, snapshotting `ids` against
/// the current `products` table.
pub open spec fn new_order(
    id: u64,
    client: Seq<char>,
    products: Map<u64, ProductView>,
    ids: Seq<u64>,
    now: u64,
) -> OrderView {
    OrderView {
        id,
        client_principal: client,
        products: order_snapshots(products, ids),
        total_price: ids_price_total(products, ids) as u64,
        created_at: now,
        updated_at: None,
    }
}

/// `o` with its snapshots fully replaced by re-resolving `ids` against the
/// current `products` table at time `now`; identity, client and creation
/// time are untouched.
pub open spec fn order_updated(
    o: OrderView,
    products: Map<u64, ProductView>,
    ids: Seq<u64>,
    now: u64,
) -> OrderView {
    OrderView {
        products: order_snapshots(products, ids),
        total_price: ids_price_total(products, ids) as u64,
        updated_at: Some(now),
        ..o
    }
}

impl StoreView {
    /// The stored Business under key `k` is consistent: it knows its own id,
    /// its id was allocated, and its owned-Product list holds, without
    /// repetition, ids of stored Products that point back at it.
    pub open spec fn business_ok(self, k: u64) -> bool {
        let b = self.businesses[k];
        &&& b.id == k
        &&& 1 <= k <= self.counter
        &&& b.products_ids.no_duplicates()
        &&& forall|i: int|
            0 <= i < b.products_ids.len() ==> {
                let p = #[trigger] b.products_ids[i];
                &&& self.products.contains_key(p)
                &&& self.products[p].business_id == k
            }
    }

    /// The stored Product under key `k` is consistent: it knows its own id,
    /// its id was allocated, and its owning Business exists and lists it.
    pub open spec fn product_ok(self, k: u64) -> bool {
        let p = self.products[k];
        &&& p.id == k
        &&& 1 <= k <= self.counter
        &&& self.businesses.contains_key(p.business_id)
        &&& self.businesses[p.business_id].products_ids.contains(k)
    }

    /// The stored Order under key `k` is consistent: it knows its own id,
    /// its id was allocated, and its total is the sum of its snapshots'
    /// prices.
    pub open spec fn order_ok(self, k: u64) -> bool {
        let o = self.orders[k];
        &&& o.id == k
        &&& 1 <= k <= self.counter
        &&& o.total_price as int == prices_total(o.products)
    }

    /// The store's invariant: every stored entity is consistent.
    pub open spec fn wf(self) -> bool {
        &&& forall|k: u64| #[trigger] self.businesses.contains_key(k) ==> self.business_ok(k)
        &&& forall|k: u64| #[trigger] self.products.contains_key(k) ==> self.product_ok(k)
        &&& forall|k: u64| #[trigger] self.orders.contains_key(k) ==> self.order_ok(k)
    }

    /// The store with the allocator advanced by one.
    pub open spec fn bumped(self) -> StoreView {
        StoreView { counter: (self.counter + 1) as u64, ..self }
    }

    /// The store with `b` stored under its id.
    pub open spec fn with_business(self, b: BusinessView) -> StoreView {
        StoreView { businesses: self.businesses.insert(b.id, b), ..self }
    }

    /// The store with `p` stored under its id.
    pub open spec fn with_product(self, p: ProductView) -> StoreView {
        StoreView { products: self.products.insert(p.id, p), ..self }
    }

    /// The store with `o` stored under its id.
    pub open spec fn with_order(self, o: OrderView) -> StoreView {
        StoreView { orders: self.orders.insert(o.id, o), ..self }
    }

    /// The store with the Business row `id` removed.
    pub open spec fn without_business(self, id: u64) -> StoreView {
        StoreView { businesses: self.businesses.remove(id), ..self }
    }

    /// The store with the Product row `id` removed.
    pub open spec fn without_product(self, id: u64) -> StoreView {
        StoreView { products: self.products.remove(id), ..self }
    }

    /// The store with every Product row in `ids` removed.
    pub open spec fn without_products(self, ids: Set<u64>) -> StoreView {
        StoreView { products: self.products.remove_keys(ids), ..self }
    }

    /// The store with the Order row `id` removed.
    pub open spec fn without_order(self, id: u64) -> StoreView {
        StoreView { orders: self.orders.remove(id), ..self }
    }
}

/// Price sums are never negative.
pub proof fn lemma_ids_price_total_nonneg(products: Map<u64, ProductView>, ids: Seq<u64>)
    ensures
        0 <= ids_price_total(products, ids),
    decreases ids.len(),
{
    if ids.len() > 0 {
        lemma_ids_price_total_nonneg(products, ids.drop_last());
    }
}

/// The price sum of a prefix never exceeds the price sum of the whole.
pub proof fn lemma_ids_price_total_take(products: Map<u64, ProductView>, ids: Seq<u64>, i: int)
    requires
        0 <= i <= ids.len(),
    ensures
        ids_price_total(products, ids.take(i)) <= ids_price_total(products, ids),
    decreases ids.len(),
{
    if i == ids.len() {
        assert(ids.take(i) =~= ids);
    } else {
        assert(ids.drop_last().take(i) =~= ids.take(i));
        lemma_ids_price_total_take(products, ids.drop_last(), i);
        if products.contains_key(ids.last()) {
        }
    }
}

/// When every id resolves, the id-wise price sum is the price sum of the
/// snapshots the ids take.
pub proof fn lemma_ids_price_total_matches_snapshots(
    products: Map<u64, ProductView>,
    ids: Seq<u64>,
)
    requires
        all_products_exist(products, ids),
    ensures
        ids_price_total(products, ids) == prices_total(order_snapshots(products, ids)),
    decreases ids.len(),
{
    if ids.len() > 0 {
        assert(order_snapshots(products, ids).drop_last() =~= order_snapshots(
            products,
            ids.drop_last(),
        ));
        lemma_ids_price_total_matches_snapshots(products, ids.drop_last());
    }
}

} // verus!
