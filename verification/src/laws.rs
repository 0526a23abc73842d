//! Proved laws relating the store's operations.
//!
//! Each law is stated over the same spec functions the operations' contracts
//! use, so it applies to any sequence of calls on a [`crate::store::Store`].

use vstd::prelude::*;

use crate::helpers::business_payload_valid;
use crate::helpers::product_payload_errors;
use crate::helpers::product_payload_valid;
use crate::messages::price_msg;
use crate::model::all_products_exist;
use crate::model::ids_price_total;
use crate::model::lemma_ids_price_total_matches_snapshots;
use crate::model::lemma_ids_price_total_nonneg;
use crate::model::new_business;
use crate::model::new_order;
use crate::model::prices_total;
use crate::model::product_updated;
use crate::model::StoreView;
use crate::types::BusinessPayloadView;
use crate::types::ProductPayloadView;

verus! {

/// Creating a Business from a valid payload and looking the returned id up
/// yields a record whose fields come from the payload, whose owner is the
/// calling principal, whose owned-Product list is empty, and which has
/// never been updated.
pub proof fn lemma_add_business_then_get(
    pre: StoreView,
    payload: BusinessPayloadView,
    caller: Seq<char>,
    now: u64,
)
    requires
        pre.wf(),
        pre.counter < u64::MAX,
        business_payload_valid(payload),
    ensures
        ({
            let b = new_business((pre.counter + 1) as u64, payload, caller, now);
            let post = pre.bumped().with_business(b);
            &&& post.businesses.contains_key(b.id)
            &&& post.businesses[b.id] == b
            &&& b.name == payload.name
            &&& b.description == payload.description
            &&& b.address == payload.address
            &&& b.owner_principal == caller
            &&& b.products_ids == Seq::<u64>::empty()
            &&& b.updated_at is None
        }),
{
}

/// Deleting a Business deletes every Product it listed: in the store the
/// deletion leaves behind, no previously listed Product id resolves.
pub proof fn lemma_delete_business_cascades(pre: StoreView, id: u64)
    requires
        pre.wf(),
        pre.businesses.contains_key(id),
    ensures
        forall|pid: u64|
            #[trigger] pre.businesses[id].products_ids.contains(pid)
                ==> !pre.without_business(id).without_products(
                pre.businesses[id].products_ids.to_set(),
            ).products.contains_key(pid),
{
    let l = pre.businesses[id].products_ids;
    assert forall|pid: u64| #[trigger] l.contains(pid) implies !pre.without_business(
        id,
    ).without_products(l.to_set()).products.contains_key(pid) by {
        assert(l.to_set().contains(pid));
    }
}

/// An Order's recorded total is the sum, at creation time, of the prices of
/// the Products its ids resolve to.
pub proof fn lemma_order_total_at_creation(
    pre: StoreView,
    client: Seq<char>,
    ids: Seq<u64>,
    now: u64,
)
    requires
        pre.counter < u64::MAX,
        all_products_exist(pre.products, ids),
        ids_price_total(pre.products, ids) <= u64::MAX,
    ensures
        ({
            let o = new_order((pre.counter + 1) as u64, client, pre.products, ids, now);
            &&& o.total_price as int == ids_price_total(pre.products, ids)
            &&& o.total_price as int == prices_total(o.products)
        }),
{
    lemma_ids_price_total_nonneg(pre.products, ids);
    lemma_ids_price_total_matches_snapshots(pre.products, ids);
}

/// Updating a Product touches no stored Order: every Order keeps its
/// snapshots and its recorded total, whatever the new price says.
pub proof fn lemma_product_update_keeps_orders(
    pre: StoreView,
    id: u64,
    payload: ProductPayloadView,
    now: u64,
)
    ensures
        ({
            let post = pre.with_product(product_updated(pre.products[id], payload, now));
            &&& post.orders == pre.orders
            &&& forall|k: u64|
                #[trigger] pre.orders.contains_key(k) ==> post.orders[k].total_price
                    == pre.orders[k].total_price
        }),
{
}

/// Deleting a Product touches no stored Order either: an Order records
/// history, not live references.
pub proof fn lemma_product_delete_keeps_orders(pre: StoreView, id: u64, bid: u64)
    ensures
        ({
            let post = pre.with_business(
                crate::model::business_without_product(pre.businesses[bid], id),
            ).without_product(id);
            &&& post.orders == pre.orders
        }),
{
}

/// A payload whose price is zero never validates, and its violation list
/// holds the price message.
pub proof fn lemma_zero_price_rejected(payload: ProductPayloadView)
    requires
        payload.price == 0,
    ensures
        !product_payload_valid(payload),
        product_payload_errors(payload).contains(price_msg()),
{
    let errors = product_payload_errors(payload);
    assert(errors[errors.len() - 1] == price_msg());
}

} // verus!
