//! The entity store: three id-keyed tables, a monotonic id allocator, and
//! the public operations on Businesses, Products, and Orders.
//!
//! Every operation is specified against [`crate::model::StoreView`]: it says
//! exactly which entity or typed failure comes back on which inputs, and how
//! the store changes. Every failure leaves the store unchanged. The caller's
//! principal (`caller`) and the current time (`now`) are supplied by the
//! surrounding runtime as plain values.

use std::collections::BTreeMap;

use vstd::prelude::*;

use crate::helpers::business_payload_errors;
use crate::helpers::business_payload_valid;
use crate::helpers::is_caller_business_owner;
use crate::helpers::is_caller_order_client;
use crate::helpers::product_payload_errors;
use crate::helpers::product_payload_valid;
use crate::helpers::validate_business_payload;
use crate::helpers::validate_product_payload;
use crate::messages::business_not_found_message;
use crate::messages::business_not_found_msg;
use crate::messages::business_update_not_found_message;
use crate::messages::business_update_not_found_msg;
use crate::messages::not_business_owner_msg;
use crate::messages::not_order_client_msg;
use crate::messages::order_not_found_message;
use crate::messages::order_not_found_msg;
use crate::messages::order_product_not_found_message;
use crate::messages::order_product_not_found_msg;
use crate::messages::order_update_not_found_message;
use crate::messages::order_update_not_found_msg;
use crate::messages::product_not_found_message;
use crate::messages::product_not_found_msg;
use crate::messages::product_update_not_found_message;
use crate::messages::product_update_not_found_msg;
use crate::model::all_products_exist;
use crate::model::business_updated;
use crate::model::business_with_product;
use crate::model::business_without_product;
use crate::model::ids_price_total;
use crate::model::is_first_missing;
use crate::model::lemma_ids_price_total_matches_snapshots;
use crate::model::lemma_ids_price_total_nonneg;
use crate::model::lemma_ids_price_total_take;
use crate::model::new_business;
use crate::model::new_order;
use crate::model::new_product;
use crate::model::order_snapshots;
use crate::model::order_updated;
use crate::model::prices_total;
use crate::model::product_updated;
use crate::model::StoreView;
use crate::types::Business;
use crate::types::BusinessPayload;
use crate::types::Error;
use crate::types::Order;
use crate::types::OrderPayload;
use crate::types::Product;
use crate::types::ProductPayload;

verus! {

/// The owned entity store: the sole holder of the three entity tables and
/// the id allocator. Construct one at process start and route every
/// operation through it.
pub struct Store {
    counter: u64,
    businesses: BTreeMap<u64, Business>,
    products: BTreeMap<u64, Product>,
    orders: BTreeMap<u64, Order>,
}

impl View for Store {
    type V = StoreView;

    closed spec fn view(&self) -> StoreView {
        StoreView {
            counter: self.counter,
            businesses: self.businesses@.map_values(|b: Business| b@),
            products: self.products@.map_values(|p: Product| p@),
            orders: self.orders@.map_values(|o: Order| o@),
        }
    }
}

impl Store {
    /// An empty store; the first allocated id will be 1.
    pub fn new() -> (r: Store)
        ensures
            r@.wf(),
            r@.counter == 0,
            r@.businesses == Map::<u64, crate::types::BusinessView>::empty(),
            r@.products == Map::<u64, crate::types::ProductView>::empty(),
            r@.orders == Map::<u64, crate::types::OrderView>::empty(),
    {
        let r = Store {
            counter: 0,
            businesses: BTreeMap::new(),
            products: BTreeMap::new(),
            orders: BTreeMap::new(),
        };
        proof {
            assert(r@.businesses =~= Map::<u64, crate::types::BusinessView>::empty());
            assert(r@.products =~= Map::<u64, crate::types::ProductView>::empty());
            assert(r@.orders =~= Map::<u64, crate::types::OrderView>::empty());
        }
        r
    }

    /// The last id the allocator handed out.
    pub fn counter(&self) -> (r: u64)
        ensures
            r == self@.counter,
    {
        self.counter
    }

    /// Issues the next id: strictly greater than every id issued before.
    fn next_id(&mut self) -> (id: u64)
        requires
            old(self)@.counter < u64::MAX,
        ensures
            id == old(self)@.counter + 1,
            final(self)@ == old(self)@.bumped(),
    {
        let id = self.counter + 1;
        self.counter = id;
        proof {
            assert(self@ =~= old(self)@.bumped());
        }
        id
    }

    /// Looks a Business up and hands out a copy.
    fn get_business_opt(&self, id: u64) -> (r: Option<Business>)
        ensures
            match r {
                Some(b) => self@.businesses.contains_key(id) && b@ == self@.businesses[id],
                None => !self@.businesses.contains_key(id),
            },
    {
        match self.businesses.get(&id) {
            Some(b) => Some(b.clone()),
            None => None,
        }
    }

    /// Looks a Product up and hands out a copy.
    fn get_product_opt(&self, id: u64) -> (r: Option<Product>)
        ensures
            match r {
                Some(p) => self@.products.contains_key(id) && p@ == self@.products[id],
                None => !self@.products.contains_key(id),
            },
    {
        match self.products.get(&id) {
            Some(p) => Some(p.clone()),
            None => None,
        }
    }

    /// Looks an Order up and hands out a copy.
    fn get_order_opt(&self, id: u64) -> (r: Option<Order>)
        ensures
            match r {
                Some(o) => self@.orders.contains_key(id) && o@ == self@.orders[id],
                None => !self@.orders.contains_key(id),
            },
    {
        match self.orders.get(&id) {
            Some(o) => Some(o.clone()),
            None => None,
        }
    }

    /// Stores `business` under its id, replacing any previous row.
    fn do_insert_business(&mut self, business: Business)
        ensures
            final(self)@ == old(self)@.with_business(business@),
    {
        let id = business.id;
        self.businesses.insert(id, business);
        proof {
            assert(self@.businesses =~= old(self)@.businesses.insert(id, business@));
            assert(self@ =~= old(self)@.with_business(business@));
        }
    }

    /// Stores `product` under its id, replacing any previous row.
    fn do_insert_product(&mut self, product: Product)
        ensures
            final(self)@ == old(self)@.with_product(product@),
    {
        let id = product.id;
        self.products.insert(id, product);
        proof {
            assert(self@.products =~= old(self)@.products.insert(id, product@));
            assert(self@ =~= old(self)@.with_product(product@));
        }
    }

    /// Stores `order` under its id, replacing any previous row.
    fn do_insert_order(&mut self, order: Order)
        ensures
            final(self)@ == old(self)@.with_order(order@),
    {
        let id = order.id;
        self.orders.insert(id, order);
        proof {
            assert(self@.orders =~= old(self)@.orders.insert(id, order@));
            assert(self@ =~= old(self)@.with_order(order@));
        }
    }

    /// Drops the Business row `id`.
    fn do_remove_business(&mut self, id: u64)
        ensures
            final(self)@ == old(self)@.without_business(id),
    {
        self.businesses.remove(&id);
        proof {
            assert(self@.businesses =~= old(self)@.businesses.remove(id));
            assert(self@ =~= old(self)@.without_business(id));
        }
    }

    /// Drops the Product row `id`.
    fn do_remove_product(&mut self, id: u64)
        ensures
            final(self)@ == old(self)@.without_product(id),
    {
        self.products.remove(&id);
        proof {
            assert(self@.products =~= old(self)@.products.remove(id));
            assert(self@ =~= old(self)@.without_product(id));
        }
    }

    /// Drops the Order row `id`.
    fn do_remove_order(&mut self, id: u64)
        ensures
            final(self)@ == old(self)@.without_order(id),
    {
        self.orders.remove(&id);
        proof {
            assert(self@.orders =~= old(self)@.orders.remove(id));
            assert(self@ =~= old(self)@.without_order(id));
        }
    }

    /// Fetches the Business with the given id.
    pub fn get_business(&self, id: u64) -> (r: Result<Business, Error>)
        ensures
            match r {
                Ok(b) => self@.businesses.contains_key(id) && b@ == self@.businesses[id],
                Err(e) => {
                    &&& !self@.businesses.contains_key(id)
                    &&& e matches Error::NotFound { msg } && msg@ == business_not_found_msg(id)
                },
            },
    {
        match self.get_business_opt(id) {
            Some(business) => Ok(business),
            None => Err(Error::NotFound { msg: business_not_found_message(id) }),
        }
    }

    /// Fetches the Product with the given id.
    pub fn get_product(&self, id: u64) -> (r: Result<Product, Error>)
        ensures
            match r {
                Ok(p) => self@.products.contains_key(id) && p@ == self@.products[id],
                Err(e) => {
                    &&& !self@.products.contains_key(id)
                    &&& e matches Error::NotFound { msg } && msg@ == product_not_found_msg(id)
                },
            },
    {
        match self.get_product_opt(id) {
            Some(product) => Ok(product),
            None => Err(Error::NotFound { msg: product_not_found_message(id) }),
        }
    }

    /// Fetches the Order with the given id.
    pub fn get_order(&self, id: u64) -> (r: Result<Order, Error>)
        ensures
            match r {
                Ok(o) => self@.orders.contains_key(id) && o@ == self@.orders[id],
                Err(e) => {
                    &&& !self@.orders.contains_key(id)
                    &&& e matches Error::NotFound { msg } && msg@ == order_not_found_msg(id)
                },
            },
    {
        match self.get_order_opt(id) {
            Some(order) => Ok(order),
            None => Err(Error::NotFound { msg: order_not_found_message(id) }),
        }
    }

    /// Creates a Business owned by `caller` from a validated payload.
    ///
    /// Anyone may create a Business. A failing payload leaves the store,
    /// including the allocator, unchanged.
    pub fn add_business(&mut self, payload: BusinessPayload, caller: &str, now: u64) -> (r:
        Result<Business, Error>)
        requires
            old(self)@.wf(),
            business_payload_valid(payload@) ==> old(self)@.counter < u64::MAX,
        ensures
            final(self)@.wf(),
            match r {
                Ok(b) => {
                    &&& business_payload_valid(payload@)
                    &&& b@ == new_business(
                        (old(self)@.counter + 1) as u64,
                        payload@,
                        caller@,
                        now,
                    )
                    &&& final(self)@ == old(self)@.bumped().with_business(b@)
                },
                Err(e) => {
                    &&& final(self)@ == old(self)@
                    &&& !business_payload_valid(payload@)
                    &&& e matches Error::InvalidPayload { errors } && errors.deep_view()
                        == business_payload_errors(payload@)
                },
            },
    {
        validate_business_payload(&payload)?;

        let id = self.next_id();
        let business = Business {
            id,
            name: payload.name,
            owner_principal: caller.to_owned(),
            description: payload.description,
            address: payload.address,
            created_at: now,
            updated_at: None,
            products_ids: Vec::new(),
        };
        let result = business.clone();
        self.do_insert_business(business);
        proof {
            lemma_wf_add_business(old(self)@, result@);
        }
        Ok(result)
    }

    /// Replaces the mutable fields of the Business `id` from a validated
    /// payload; only its recorded owner may do so. Its owner and owned
    /// Products are untouched.
    pub fn update_business(
        &mut self,
        id: u64,
        payload: BusinessPayload,
        caller: &str,
        now: u64,
    ) -> (r: Result<Business, Error>)
        requires
            old(self)@.wf(),
        ensures
            final(self)@.wf(),
            match r {
                Ok(b) => {
                    &&& old(self)@.businesses.contains_key(id)
                    &&& caller@ == old(self)@.businesses[id].owner_principal
                    &&& business_payload_valid(payload@)
                    &&& b@ == business_updated(old(self)@.businesses[id], payload@, now)
                    &&& final(self)@ == old(self)@.with_business(b@)
                },
                Err(e) => {
                    &&& final(self)@ == old(self)@
                    &&& match e {
                        Error::NotFound { msg } => {
                            &&& !old(self)@.businesses.contains_key(id)
                            &&& msg@ == business_update_not_found_msg(id)
                        },
                        Error::NotBusinessOwner { msg } => {
                            &&& old(self)@.businesses.contains_key(id)
                            &&& caller@ != old(self)@.businesses[id].owner_principal
                            &&& msg@ == not_business_owner_msg()
                        },
                        Error::InvalidPayload { errors } => {
                            &&& old(self)@.businesses.contains_key(id)
                            &&& caller@ == old(self)@.businesses[id].owner_principal
                            &&& !business_payload_valid(payload@)
                            &&& errors.deep_view() == business_payload_errors(payload@)
                        },
                        Error::NotOrderClient { .. } => false,
                    }
                },
            },
    {
        match self.get_business_opt(id) {
            Some(business) => {
                is_caller_business_owner(&business, caller)?;
                validate_business_payload(&payload)?;

                let updated = Business {
                    id: business.id,
                    name: payload.name,
                    owner_principal: business.owner_principal,
                    description: payload.description,
                    address: payload.address,
                    created_at: business.created_at,
                    updated_at: Some(now),
                    products_ids: business.products_ids,
                };
                let result = updated.clone();
                self.do_insert_business(updated);
                proof {
                    lemma_wf_update_business(old(self)@, id, result@);
                }
                Ok(result)
            },
            None => Err(Error::NotFound { msg: business_update_not_found_message(id) }),
        }
    }

    /// Removes the Order `id`; only its recorded client may do so.
    pub fn delete_order(&mut self, id: u64, caller: &str) -> (r: Result<Order, Error>)
        requires
            old(self)@.wf(),
        ensures
            final(self)@.wf(),
            match r {
                Ok(o) => {
                    &&& old(self)@.orders.contains_key(id)
                    &&& caller@ == old(self)@.orders[id].client_principal
                    &&& o@ == old(self)@.orders[id]
                    &&& final(self)@ == old(self)@.without_order(id)
                },
                Err(e) => {
                    &&& final(self)@ == old(self)@
                    &&& match e {
                        Error::NotFound { msg } => {
                            &&& !old(self)@.orders.contains_key(id)
                            &&& msg@ == order_not_found_msg(id)
                        },
                        Error::NotOrderClient { msg } => {
                            &&& old(self)@.orders.contains_key(id)
                            &&& caller@ != old(self)@.orders[id].client_principal
                            &&& msg@ == not_order_client_msg()
                        },
                        _ => false,
                    }
                },
            },
    {
        let order = self.get_order(id)?;
        is_caller_order_client(&order, caller)?;

        self.do_remove_order(id);
        Ok(order)
    }

    /// Creates a Product under the Business named by the payload, from a
    /// validated payload; only that Business's recorded owner may do so. The
    /// new Product's id is appended to the Business's owned-Product list in
    /// the same step.
    pub fn add_product(&mut self, payload: ProductPayload, caller: &str, now: u64) -> (r: Result<
        Product,
        Error,
    >)
        requires
            old(self)@.wf(),
            ({
                &&& old(self)@.businesses.contains_key(payload.business_id)
                &&& caller@ == old(self)@.businesses[payload.business_id].owner_principal
                &&& product_payload_valid(payload@)
            }) ==> old(self)@.counter < u64::MAX,
        ensures
            final(self)@.wf(),
            match r {
                Ok(p) => {
                    &&& old(self)@.businesses.contains_key(payload.business_id)
                    &&& caller@ == old(self)@.businesses[payload.business_id].owner_principal
                    &&& product_payload_valid(payload@)
                    &&& p@ == new_product((old(self)@.counter + 1) as u64, payload@, now)
                    &&& final(self)@ == old(self)@.bumped().with_business(
                        business_with_product(old(self)@.businesses[payload.business_id], p@.id),
                    ).with_product(p@)
                },
                Err(e) => {
                    &&& final(self)@ == old(self)@
                    &&& match e {
                        Error::NotFound { msg } => {
                            &&& !old(self)@.businesses.contains_key(payload.business_id)
                            &&& msg@ == business_not_found_msg(payload.business_id)
                        },
                        Error::NotBusinessOwner { msg } => {
                            &&& old(self)@.businesses.contains_key(payload.business_id)
                            &&& caller@ != old(self)@.businesses[payload.business_id].owner_principal
                            &&& msg@ == not_business_owner_msg()
                        },
                        Error::InvalidPayload { errors } => {
                            &&& old(self)@.businesses.contains_key(payload.business_id)
                            &&& caller@ == old(self)@.businesses[payload.business_id].owner_principal
                            &&& !product_payload_valid(payload@)
                            &&& errors.deep_view() == product_payload_errors(payload@)
                        },
                        Error::NotOrderClient { .. } => false,
                    }
                },
            },
    {
        let mut business = self.get_business(payload.business_id)?;
        is_caller_business_owner(&business, caller)?;
        validate_product_payload(&payload)?;

        let id = self.next_id();
        let product = Product {
            id,
            business_id: payload.business_id,
            name: payload.name,
            description: payload.description,
            price: payload.price,
            created_at: now,
            updated_at: None,
        };
        business.products_ids.push(product.id);
        let result = product.clone();
        proof {
            assert(business@ =~= business_with_product(
                old(self)@.businesses[payload.business_id],
                result@.id,
            ));
        }
        self.do_insert_business(business);
        self.do_insert_product(product);
        proof {
            lemma_wf_add_product(old(self)@, payload.business_id, result@);
        }
        Ok(result)
    }

    /// Replaces the mutable fields of the Product `id` from a validated
    /// payload; only the recorded owner of its Business may do so. The
    /// Product's owning Business is set at creation and never taken from the
    /// payload.
    pub fn update_product(&mut self, id: u64, payload: ProductPayload, caller: &str, now: u64) -> (r:
        Result<Product, Error>)
        requires
            old(self)@.wf(),
        ensures
            final(self)@.wf(),
            match r {
                Ok(p) => {
                    &&& old(self)@.products.contains_key(id)
                    &&& caller@ == old(self)@.businesses[old(self)@.products[id].business_id].owner_principal
                    &&& product_payload_valid(payload@)
                    &&& p@ == product_updated(old(self)@.products[id], payload@, now)
                    &&& final(self)@ == old(self)@.with_product(p@)
                },
                Err(e) => {
                    &&& final(self)@ == old(self)@
                    &&& match e {
                        Error::NotFound { msg } => {
                            &&& !old(self)@.products.contains_key(id)
                            &&& msg@ == product_update_not_found_msg(id)
                        },
                        Error::NotBusinessOwner { msg } => {
                            &&& old(self)@.products.contains_key(id)
                            &&& caller@ != old(self)@.businesses[old(self)@.products[id].business_id].owner_principal
                            &&& msg@ == not_business_owner_msg()
                        },
                        Error::InvalidPayload { errors } => {
                            &&& old(self)@.products.contains_key(id)
                            &&& caller@ == old(self)@.businesses[old(self)@.products[id].business_id].owner_principal
                            &&& !product_payload_valid(payload@)
                            &&& errors.deep_view() == product_payload_errors(payload@)
                        },
                        Error::NotOrderClient { .. } => false,
                    }
                },
            },
    {
        match self.get_product_opt(id) {
            Some(product) => {
                let business = self.get_business(product.business_id)?;
                is_caller_business_owner(&business, caller)?;
                validate_product_payload(&payload)?;

                let updated = Product {
                    id: product.id,
                    business_id: product.business_id,
                    name: payload.name,
                    description: payload.description,
                    price: payload.price,
                    created_at: product.created_at,
                    updated_at: Some(now),
                };
                let result = updated.clone();
                self.do_insert_product(updated);
                proof {
                    lemma_wf_update_product(old(self)@, id, result@);
                }
                Ok(result)
            },
            None => Err(Error::NotFound { msg: product_update_not_found_message(id) }),
        }
    }

    /// Creates an Order for `caller` by snapshotting, in order, the Products
    /// the payload names; its total is the sum of the snapshots' prices.
    ///
    /// Anyone may create an Order. If any named id resolves to no Product,
    /// the whole creation aborts on the first such id and the store,
    /// including the allocator, is unchanged.
    pub fn create_order(&mut self, payload: OrderPayload, caller: &str, now: u64) -> (r: Result<
        Order,
        Error,
    >)
        requires
            old(self)@.wf(),
            all_products_exist(old(self)@.products, payload.product_ids@) ==> old(self)@.counter
                < u64::MAX,
            all_products_exist(old(self)@.products, payload.product_ids@) ==> ids_price_total(
                old(self)@.products,
                payload.product_ids@,
            ) <= u64::MAX,
        ensures
            final(self)@.wf(),
            match r {
                Ok(o) => {
                    &&& all_products_exist(old(self)@.products, payload.product_ids@)
                    &&& o@ == new_order(
                        (old(self)@.counter + 1) as u64,
                        caller@,
                        old(self)@.products,
                        payload.product_ids@,
                        now,
                    )
                    &&& final(self)@ == old(self)@.bumped().with_order(o@)
                },
                Err(e) => {
                    &&& final(self)@ == old(self)@
                    &&& !all_products_exist(old(self)@.products, payload.product_ids@)
                    &&& e matches Error::NotFound { msg } && exists|j: int|
                        is_first_missing(old(self)@.products, payload.product_ids@, j) && msg@
                            == order_product_not_found_msg(payload.product_ids@[j])
                },
            },
    {
        let (order_products, total_price) = self.resolve_products(&payload.product_ids)?;

        let order_id = self.next_id();
        let order = Order {
            id: order_id,
            client_principal: caller.to_owned(),
            products: order_products,
            total_price,
            created_at: now,
            updated_at: None,
        };
        let result = order.clone();
        self.do_insert_order(order);
        proof {
            assert(result@ =~= new_order(
                (old(self)@.counter + 1) as u64,
                caller@,
                old(self)@.products,
                payload.product_ids@,
                now,
            ));
            lemma_ids_price_total_nonneg(old(self)@.products, payload.product_ids@);
            lemma_ids_price_total_matches_snapshots(old(self)@.products, payload.product_ids@);
            lemma_wf_bumped(old(self)@);
            lemma_wf_put_order(old(self)@.bumped(), result@);
        }
        Ok(result)
    }

    /// Replaces the Order `id`'s snapshot set by re-resolving the payload's
    /// Product ids against the current Product table; only the Order's
    /// recorded client may do so. The old snapshots are fully replaced,
    /// never merged.
    pub fn update_order(&mut self, id: u64, payload: OrderPayload, caller: &str, now: u64) -> (r:
        Result<Order, Error>)
        requires
            old(self)@.wf(),
            ({
                &&& old(self)@.orders.contains_key(id)
                &&& caller@ == old(self)@.orders[id].client_principal
                &&& all_products_exist(old(self)@.products, payload.product_ids@)
            }) ==> ids_price_total(old(self)@.products, payload.product_ids@) <= u64::MAX,
        ensures
            final(self)@.wf(),
            match r {
                Ok(o) => {
                    &&& old(self)@.orders.contains_key(id)
                    &&& caller@ == old(self)@.orders[id].client_principal
                    &&& all_products_exist(old(self)@.products, payload.product_ids@)
                    &&& o@ == order_updated(
                        old(self)@.orders[id],
                        old(self)@.products,
                        payload.product_ids@,
                        now,
                    )
                    &&& final(self)@ == old(self)@.with_order(o@)
                },
                Err(e) => {
                    &&& final(self)@ == old(self)@
                    &&& match e {
                        Error::NotFound { msg } => {
                            ||| {
                                &&& !old(self)@.orders.contains_key(id)
                                &&& msg@ == order_update_not_found_msg(id)
                            }
                            ||| {
                                &&& old(self)@.orders.contains_key(id)
                                &&& caller@ == old(self)@.orders[id].client_principal
                                &&& !all_products_exist(old(self)@.products, payload.product_ids@)
                                &&& exists|j: int|
                                    is_first_missing(old(self)@.products, payload.product_ids@, j)
                                        && msg@ == order_product_not_found_msg(
                                        payload.product_ids@[j],
                                    )
                            }
                        },
                        Error::NotOrderClient { msg } => {
                            &&& old(self)@.orders.contains_key(id)
                            &&& caller@ != old(self)@.orders[id].client_principal
                            &&& msg@ == not_order_client_msg()
                        },
                        _ => false,
                    }
                },
            },
    {
        match self.get_order_opt(id) {
            Some(order) => {
                is_caller_order_client(&order, caller)?;

                let (new_products, new_total_price) = self.resolve_products(
                    &payload.product_ids,
                )?;

                let updated = Order {
                    id: order.id,
                    client_principal: order.client_principal,
                    products: new_products,
                    total_price: new_total_price,
                    created_at: order.created_at,
                    updated_at: Some(now),
                };
                let result = updated.clone();
                self.do_insert_order(updated);
                proof {
                    assert(result@ =~= order_updated(
                        old(self)@.orders[id],
                        old(self)@.products,
                        payload.product_ids@,
                        now,
                    ));
                    lemma_ids_price_total_nonneg(old(self)@.products, payload.product_ids@);
                    lemma_ids_price_total_matches_snapshots(
                        old(self)@.products,
                        payload.product_ids@,
                    );
                    assert(old(self)@.order_ok(id));
                    lemma_wf_put_order(old(self)@, result@);
                }
                Ok(result)
            },
            None => Err(Error::NotFound { msg: order_update_not_found_message(id) }),
        }
    }

    /// Removes the Product `id` and strikes its id from its owning
    /// Business's list in the same step; only that Business's recorded owner
    /// may do so. Existing Orders keep their snapshots of it.
    pub fn delete_product(&mut self, id: u64, caller: &str) -> (r: Result<Product, Error>)
        requires
            old(self)@.wf(),
        ensures
            final(self)@.wf(),
            match r {
                Ok(p) => {
                    &&& old(self)@.products.contains_key(id)
                    &&& p@ == old(self)@.products[id]
                    &&& caller@ == old(self)@.businesses[p@.business_id].owner_principal
                    &&& final(self)@ == old(self)@.with_business(
                        business_without_product(old(self)@.businesses[p@.business_id], id),
                    ).without_product(id)
                },
                Err(e) => {
                    &&& final(self)@ == old(self)@
                    &&& match e {
                        Error::NotFound { msg } => {
                            &&& !old(self)@.products.contains_key(id)
                            &&& msg@ == product_not_found_msg(id)
                        },
                        Error::NotBusinessOwner { msg } => {
                            &&& old(self)@.products.contains_key(id)
                            &&& caller@ != old(self)@.businesses[old(self)@.products[id].business_id].owner_principal
                            &&& msg@ == not_business_owner_msg()
                        },
                        _ => false,
                    }
                },
            },
    {
        let product = self.get_product(id)?;
        let mut business = self.get_business(product.business_id)?;
        is_caller_business_owner(&business, caller)?;

        proof {
            assert(old(self)@.product_ok(id));
        }
        let idx = index_of_id(&business.products_ids, id);
        let ghost l0 = business.products_ids@;
        business.products_ids.remove(idx);
        proof {
            l0.index_of_first_ensures(id);
            let f = l0.index_of_first(id).unwrap();
            assert(f == idx as int);
            assert(business@ =~= business_without_product(
                old(self)@.businesses[product@.business_id],
                id,
            ));
        }
        self.do_insert_business(business);
        self.do_remove_product(id);
        proof {
            lemma_wf_delete_product(old(self)@, id);
        }
        Ok(product)
    }

    /// Removes the Business `id`; only its recorded owner may do so. Every
    /// Product the Business lists is deleted in the same request, through
    /// the same per-Product path a direct caller uses; existing Orders keep
    /// their snapshots, and the allocator never reissues the freed ids. The
    /// record handed back is the Business as it stood before the cascade.
    pub fn delete_business(&mut self, id: u64, caller: &str) -> (r: Result<Business, Error>)
        requires
            old(self)@.wf(),
        ensures
            final(self)@.wf(),
            match r {
                Ok(b) => {
                    &&& old(self)@.businesses.contains_key(id)
                    &&& caller@ == old(self)@.businesses[id].owner_principal
                    &&& b@ == old(self)@.businesses[id]
                    &&& final(self)@ == old(self)@.without_business(id).without_products(
                        old(self)@.businesses[id].products_ids.to_set(),
                    )
                },
                Err(e) => {
                    &&& final(self)@ == old(self)@
                    &&& match e {
                        Error::NotFound { msg } => {
                            &&& !old(self)@.businesses.contains_key(id)
                            &&& msg@ == business_not_found_msg(id)
                        },
                        Error::NotBusinessOwner { msg } => {
                            &&& old(self)@.businesses.contains_key(id)
                            &&& caller@ != old(self)@.businesses[id].owner_principal
                            &&& msg@ == not_business_owner_msg()
                        },
                        _ => false,
                    }
                },
            },
    {
        let business = self.get_business(id)?;
        is_caller_business_owner(&business, caller)?;

        let ghost l = business@.products_ids;
        proof {
            assert(business_with_suffix(old(self)@.businesses[id], 0) =~= old(
                self,
            )@.businesses[id]);
            assert(old(self)@.businesses.insert(id, old(self)@.businesses[id]) =~= old(
                self,
            )@.businesses);
            assert(l.take(0).to_set() =~= Set::<u64>::empty());
            assert(old(self)@.products.remove_keys(l.take(0).to_set()) =~= old(self)@.products);
        }
        let mut i: usize = 0;
        while i < business.products_ids.len()
            invariant
                old(self)@.wf(),
                old(self)@.businesses.contains_key(id),
                business@ == old(self)@.businesses[id],
                l == business@.products_ids,
                caller@ == old(self)@.businesses[id].owner_principal,
                i <= l.len(),
                self@.wf(),
                self@.counter == old(self)@.counter,
                self@.orders == old(self)@.orders,
                self@.businesses == old(self)@.businesses.insert(
                    id,
                    business_with_suffix(old(self)@.businesses[id], i as int),
                ),
                self@.products == old(self)@.products.remove_keys(l.take(i as int).to_set()),
            decreases l.len() - i,
        {
            let pid: u64 = business.products_ids[i];
            proof {
                assert(self@.businesses[id].products_ids[0] == l[i as int]);
                assert(self@.business_ok(id));
            }
            let ghost mid = self@;
            let _removed = self.delete_product(pid, caller);
            proof {
                if _removed is Err {
                    assert(false);
                }
                let p = _removed.unwrap();
                assert(p@.business_id == id);
                // the struck id sat at the head of the remaining suffix
                let suffix = mid.businesses[id].products_ids;
                suffix.index_of_first_ensures(pid);
                assert(suffix[0] == pid);
                assert(suffix.index_of_first(pid).unwrap() == 0);
                assert(suffix.remove_value(pid) =~= l.skip(i + 1));
                assert(business_without_product(mid.businesses[id], pid)
                    =~= business_with_suffix(old(self)@.businesses[id], i + 1));
                assert(self@.businesses =~= old(self)@.businesses.insert(
                    id,
                    business_with_suffix(old(self)@.businesses[id], i + 1),
                ));
                // striking one more listed id grows the removed key set by it
                assert forall|q: u64|
                    l.take(i + 1).to_set().contains(q) <==> (l.take(i as int).to_set().contains(q)
                        || q == pid) by {
                    if l.take(i + 1).contains(q) {
                        let w = choose|w: int| 0 <= w < i + 1 && #[trigger] l.take(i + 1)[w] == q;
                        if w < i {
                            assert(l.take(i as int)[w] == q);
                        }
                    }
                    if l.take(i as int).contains(q) {
                        let w = choose|w: int| 0 <= w < i && #[trigger] l.take(i as int)[w] == q;
                        assert(l.take(i + 1)[w] == q);
                    }
                    if q == pid {
                        assert(l.take(i + 1)[i as int] == q);
                    }
                }
                assert(self@.products =~= old(self)@.products.remove_keys(
                    l.take(i + 1).to_set(),
                ));
            }
            i = i + 1;
        }
        proof {
            assert(l.take(l.len() as int) =~= l);
            assert(business_with_suffix(old(self)@.businesses[id], l.len() as int).products_ids
                =~= Seq::<u64>::empty());
        }
        let ghost after_cascade = self@;
        self.do_remove_business(id);
        proof {
            assert(self@.businesses =~= old(self)@.businesses.remove(id));
            assert(self@ =~= old(self)@.without_business(id).without_products(
                old(self)@.businesses[id].products_ids.to_set(),
            ));
            lemma_wf_drop_business(after_cascade, id);
        }
        Ok(business)
    }

    /// Resolves every id in `ids` to a copy of the current Product, in
    /// order, and sums the prices; aborts on the first id that resolves to
    /// nothing.
    fn resolve_products(&self, ids: &Vec<u64>) -> (r: Result<(Vec<Product>, u64), Error>)
        requires
            all_products_exist(self@.products, ids@) ==> ids_price_total(self@.products, ids@)
                <= u64::MAX,
        ensures
            match r {
                Ok((snapshots, total)) => {
                    &&& all_products_exist(self@.products, ids@)
                    &&& snapshots@.map_values(|p: Product| p@) == order_snapshots(
                        self@.products,
                        ids@,
                    )
                    &&& total as int == ids_price_total(self@.products, ids@)
                },
                Err(e) => {
                    &&& !all_products_exist(self@.products, ids@)
                    &&& e matches Error::NotFound { msg } && exists|j: int|
                        is_first_missing(self@.products, ids@, j) && msg@
                            == order_product_not_found_msg(ids@[j])
                },
            },
    {
        let mut snapshots: Vec<Product> = Vec::new();
        let mut i: usize = 0;
        while i < ids.len()
            invariant
                i <= ids@.len(),
                forall|j: int| 0 <= j < i ==> self@.products.contains_key(#[trigger] ids@[j]),
                snapshots@.len() == i,
                snapshots@.map_values(|p: Product| p@) == order_snapshots(
                    self@.products,
                    ids@.take(i as int),
                ),
            decreases ids@.len() - i,
        {
            let pid: u64 = ids[i];
            match self.get_product_opt(pid) {
                Some(product) => {
                    let ghost snap0 = snapshots@;
                    snapshots.push(product);
                    proof {
                        assert forall|j: int| 0 <= j < i + 1 implies (#[trigger] snapshots@[j])@
                            == self@.products[ids@[j]] by {
                            if j < i {
                                assert(snap0.map_values(|p: Product| p@)[j] == order_snapshots(
                                    self@.products,
                                    ids@.take(i as int),
                                )[j]);
                                assert(snap0.map_values(|p: Product| p@)[j] == snap0[j]@);
                                assert(ids@.take(i as int)[j] == ids@[j]);
                                assert(snapshots@[j] == snap0[j]);
                            } else {
                                assert(snapshots@[j] == product);
                            }
                        }
                        assert forall|j: int| 0 <= j < i + 1 implies #[trigger] ids@.take(
                            i + 1,
                        )[j] == ids@[j] by {}
                        assert(snapshots@.map_values(|p: Product| p@).len() == i + 1);
                        assert(order_snapshots(self@.products, ids@.take(i + 1)).len() == i + 1);
                        assert(snapshots@.map_values(|p: Product| p@) =~= order_snapshots(
                            self@.products,
                            ids@.take(i + 1),
                        ));
                    }
                },
                None => {
                    proof {
                        assert(is_first_missing(self@.products, ids@, i as int));
                    }
                    return Err(Error::NotFound { msg: order_product_not_found_message(pid) });
                },
            }
            i = i + 1;
        }
        proof {
            assert(ids@.take(ids@.len() as int) =~= ids@);
        }
        // every id resolved; only now is a total computed
        let mut total: u64 = 0;
        let mut k: usize = 0;
        while k < snapshots.len()
            invariant
                k <= snapshots@.len(),
                snapshots@.len() == ids@.len(),
                all_products_exist(self@.products, ids@),
                ids_price_total(self@.products, ids@) <= u64::MAX,
                snapshots@.map_values(|p: Product| p@) == order_snapshots(self@.products, ids@),
                total as int == ids_price_total(self@.products, ids@.take(k as int)),
            decreases snapshots@.len() - k,
        {
            proof {
                assert(ids@.take(k + 1).drop_last() =~= ids@.take(k as int));
                assert(ids@.take(k + 1).last() == ids@[k as int]);
                lemma_ids_price_total_take(self@.products, ids@, k + 1);
                lemma_ids_price_total_nonneg(self@.products, ids@.take(k as int));
                assert(snapshots@.map_values(|p: Product| p@)[k as int] == order_snapshots(
                    self@.products,
                    ids@,
                )[k as int]);
                assert(snapshots@[k as int]@ == self@.products[ids@[k as int]]);
            }
            total = total + snapshots[k].price;
            k = k + 1;
        }
        proof {
            assert(ids@.take(ids@.len() as int) =~= ids@);
        }
        Ok((snapshots, total))
    }
}

/// Adding a freshly allocated Business with no owned Products preserves the
/// store invariant.
proof fn lemma_wf_add_business(pre: StoreView, b: crate::types::BusinessView)
    requires
        pre.wf(),
        pre.counter < u64::MAX,
        b.id == pre.counter + 1,
        b.products_ids.len() == 0,
    ensures
        pre.bumped().with_business(b).wf(),
{
    let post = pre.bumped().with_business(b);
    assert forall|k: u64| #[trigger] post.businesses.contains_key(k) implies post.business_ok(
        k,
    ) by {
        if k == b.id {
            assert(post.businesses[k] == b);
        } else {
            assert(pre.businesses.contains_key(k));
            assert(pre.business_ok(k));
        }
    }
    assert forall|k: u64| #[trigger] post.products.contains_key(k) implies post.product_ok(k) by {
        assert(pre.product_ok(k));
        assert(pre.business_ok(pre.products[k].business_id));
    }
    assert forall|k: u64| #[trigger] post.orders.contains_key(k) implies post.order_ok(k) by {
        assert(pre.order_ok(k));
    }
}

/// `b` with the first `i` entries of its owned-Product list already struck.
spec fn business_with_suffix(b: crate::types::BusinessView, i: int) -> crate::types::BusinessView {
    crate::types::BusinessView { products_ids: b.products_ids.skip(i), ..b }
}

/// Finds the first position of `id` in `v`, which must contain it.
fn index_of_id(v: &Vec<u64>, id: u64) -> (r: usize)
    requires
        v@.contains(id),
    ensures
        r < v@.len(),
        v@[r as int] == id,
        forall|k: int| 0 <= k < r ==> v@[k] != id,
{
    let mut j: usize = 0;
    while j < v.len()
        invariant
            j <= v@.len(),
            v@.contains(id),
            forall|k: int| 0 <= k < j ==> v@[k] != id,
        decreases v@.len() - j,
    {
        if v[j] == id {
            return j;
        }
        j = j + 1;
    }
    proof {
        let w = choose|w: int| 0 <= w < v@.len() && #[trigger] v@[w] == id;
        assert(false);
    }
    unreached()
}

/// Removing a Product, and striking its id from its owning Business's list
/// in the same step, preserves the store invariant.
proof fn lemma_wf_delete_product(pre: StoreView, id: u64)
    requires
        pre.wf(),
        pre.products.contains_key(id),
    ensures
        pre.with_business(
            business_without_product(pre.businesses[pre.products[id].business_id], id),
        ).without_product(id).wf(),
{
    let bid = pre.products[id].business_id;
    let b0 = pre.businesses[bid];
    let l0 = b0.products_ids;
    let b1 = business_without_product(b0, id);
    let l1 = b1.products_ids;
    let post = pre.with_business(b1).without_product(id);
    assert(pre.product_ok(id));
    assert(pre.business_ok(bid));
    l0.index_of_first_ensures(id);
    let f = l0.index_of_first(id).unwrap();
    assert(l1 =~= l0.subrange(0, f) + l0.subrange(f + 1, l0.len() as int));
    // each surviving entry comes from a distinct original position past or
    // before the struck one
    assert forall|m: int| 0 <= m < l1.len() implies #[trigger] l1[m] == (if m < f {
        l0[m]
    } else {
        l0[m + 1]
    }) by {}
    assert forall|k: u64| #[trigger] post.businesses.contains_key(k) implies post.business_ok(
        k,
    ) by {
        assert(pre.business_ok(k));
        if k == bid {
            assert forall|x: int, y: int|
                0 <= x < l1.len() && 0 <= y < l1.len() && x != y implies l1[x] != l1[y] by {
                let x0: int = if x < f {
                    x
                } else {
                    x + 1
                };
                let y0: int = if y < f {
                    y
                } else {
                    y + 1
                };
                assert(l0[x0] != l0[y0]);
            }
            assert forall|m: int| 0 <= m < l1.len() implies {
                let e = #[trigger] l1[m];
                &&& post.products.contains_key(e)
                &&& post.products[e].business_id == k
            } by {
                let m0: int = if m < f {
                    m
                } else {
                    m + 1
                };
                assert(l1[m] == l0[m0]);
                assert(pre.products.contains_key(l0[m0]));
                assert(l0[m0] != l0[f]);
            }
        } else {
            let b = pre.businesses[k];
            assert forall|m: int| 0 <= m < b.products_ids.len() implies {
                let e = #[trigger] b.products_ids[m];
                &&& post.products.contains_key(e)
                &&& post.products[e].business_id == k
            } by {
                assert(pre.products.contains_key(b.products_ids[m]));
                assert(pre.products[b.products_ids[m]].business_id == k);
                assert(b.products_ids[m] != id);
            }
        }
    }
    assert forall|k: u64| #[trigger] post.products.contains_key(k) implies post.product_ok(k) by {
        assert(pre.product_ok(k));
        let q = pre.products[k];
        if q.business_id == bid {
            let m0 = choose|m0: int| 0 <= m0 < l0.len() && #[trigger] l0[m0] == k;
            if m0 < f {
                assert(l1[m0] == k);
            } else {
                assert(l0[m0] == k && l0[f] == id && k != id);
                assert(l1[m0 - 1] == k);
            }
            assert(l1.contains(k));
        }
    }
    assert forall|k: u64| #[trigger] post.orders.contains_key(k) implies post.order_ok(k) by {
        assert(pre.order_ok(k));
    }
}

/// Dropping a Business row that lists no Products preserves the store
/// invariant.
proof fn lemma_wf_drop_business(pre: StoreView, id: u64)
    requires
        pre.wf(),
        pre.businesses.contains_key(id),
        pre.businesses[id].products_ids.len() == 0,
    ensures
        pre.without_business(id).wf(),
{
    let post = pre.without_business(id);
    assert forall|k: u64| #[trigger] post.businesses.contains_key(k) implies post.business_ok(
        k,
    ) by {
        assert(pre.business_ok(k));
    }
    assert forall|k: u64| #[trigger] post.products.contains_key(k) implies post.product_ok(k) by {
        assert(pre.product_ok(k));
        let q = pre.products[k];
        if q.business_id == id {
            assert(pre.businesses[id].products_ids.contains(k));
            assert(false);
        }
    }
    assert forall|k: u64| #[trigger] post.orders.contains_key(k) implies post.order_ok(k) by {
        assert(pre.order_ok(k));
    }
}

/// Advancing the allocator alone preserves the store invariant.
proof fn lemma_wf_bumped(pre: StoreView)
    requires
        pre.wf(),
        pre.counter < u64::MAX,
    ensures
        pre.bumped().wf(),
{
    let post = pre.bumped();
    assert forall|k: u64| #[trigger] post.businesses.contains_key(k) implies post.business_ok(
        k,
    ) by {
        assert(pre.business_ok(k));
    }
    assert forall|k: u64| #[trigger] post.products.contains_key(k) implies post.product_ok(k) by {
        assert(pre.product_ok(k));
    }
    assert forall|k: u64| #[trigger] post.orders.contains_key(k) implies post.order_ok(k) by {
        assert(pre.order_ok(k));
    }
}

/// Adding a freshly allocated Product, and appending its id to its owning
/// Business's list in the same step, preserves the store invariant.
proof fn lemma_wf_add_product(pre: StoreView, bid: u64, p: crate::types::ProductView)
    requires
        pre.wf(),
        pre.counter < u64::MAX,
        pre.businesses.contains_key(bid),
        p.id == pre.counter + 1,
        p.business_id == bid,
    ensures
        pre.bumped().with_business(business_with_product(pre.businesses[bid], p.id)).with_product(
            p,
        ).wf(),
{
    let b0 = pre.businesses[bid];
    let b1 = business_with_product(b0, p.id);
    let l0 = b0.products_ids;
    let l1 = b1.products_ids;
    let post = pre.bumped().with_business(b1).with_product(p);
    assert(pre.business_ok(bid));
    // every id already listed anywhere names a Product allocated earlier,
    // so the fresh id cannot collide with it
    assert forall|k: u64, i: int|
        pre.businesses.contains_key(k) && 0 <= i < pre.businesses[k].products_ids.len() implies (
        #[trigger] pre.businesses[k].products_ids[i]) < p.id by {
        assert(pre.business_ok(k));
        let e = pre.businesses[k].products_ids[i];
        assert(pre.products.contains_key(e));
        assert(pre.product_ok(e));
    }
    assert forall|k: u64| #[trigger] post.businesses.contains_key(k) implies post.business_ok(
        k,
    ) by {
        if k == bid {
            assert(post.businesses[k] == b1);
            assert forall|x: int, y: int|
                0 <= x < l1.len() && 0 <= y < l1.len() && x != y implies l1[x] != l1[y] by {
                if x < l0.len() && y < l0.len() {
                    assert(l0[x] != l0[y]);
                } else if y == l0.len() {
                    assert(l1[x] == l0[x] && l1[y] == p.id);
                } else {
                    assert(l1[y] == l0[y] && l1[x] == p.id);
                }
            }
            assert forall|i: int| 0 <= i < l1.len() implies {
                let e = #[trigger] l1[i];
                &&& post.products.contains_key(e)
                &&& post.products[e].business_id == k
            } by {
                if i < l0.len() {
                    assert(l1[i] == l0[i]);
                    assert(pre.products.contains_key(l0[i]));
                    assert(l0[i] != p.id);
                } else {
                    assert(l1[i] == p.id);
                }
            }
        } else {
            assert(pre.business_ok(k));
            let b = pre.businesses[k];
            assert forall|i: int| 0 <= i < b.products_ids.len() implies {
                let e = #[trigger] b.products_ids[i];
                &&& post.products.contains_key(e)
                &&& post.products[e].business_id == k
            } by {
                assert(pre.products.contains_key(b.products_ids[i]));
                assert(b.products_ids[i] != p.id);
            }
        }
    }
    assert forall|k: u64| #[trigger] post.products.contains_key(k) implies post.product_ok(k) by {
        if k == p.id {
            assert(l1[l0.len() as int] == p.id);
            assert(l1.contains(p.id));
        } else {
            assert(pre.product_ok(k));
            let q = pre.products[k];
            if q.business_id == bid {
                let i = choose|i: int| 0 <= i < l0.len() && #[trigger] l0[i] == k;
                assert(l1[i] == k);
                assert(l1.contains(k));
            }
        }
    }
    assert forall|k: u64| #[trigger] post.orders.contains_key(k) implies post.order_ok(k) by {
        assert(pre.order_ok(k));
    }
}

/// Replacing only the mutable fields of a stored Product preserves the
/// store invariant.
proof fn lemma_wf_update_product(pre: StoreView, id: u64, p: crate::types::ProductView)
    requires
        pre.wf(),
        pre.products.contains_key(id),
        p.id == id,
        p.business_id == pre.products[id].business_id,
    ensures
        pre.with_product(p).wf(),
{
    let post = pre.with_product(p);
    assert forall|k: u64| #[trigger] post.businesses.contains_key(k) implies post.business_ok(
        k,
    ) by {
        assert(pre.business_ok(k));
        let b = pre.businesses[k];
        assert forall|i: int| 0 <= i < b.products_ids.len() implies {
            let e = #[trigger] b.products_ids[i];
            &&& post.products.contains_key(e)
            &&& post.products[e].business_id == k
        } by {
            assert(pre.products.contains_key(b.products_ids[i]));
        }
    }
    assert forall|k: u64| #[trigger] post.products.contains_key(k) implies post.product_ok(k) by {
        assert(pre.product_ok(k));
        if k == id {
            assert(pre.product_ok(id));
        }
    }
    assert forall|k: u64| #[trigger] post.orders.contains_key(k) implies post.order_ok(k) by {
        assert(pre.order_ok(k));
    }
}

/// Storing an Order whose id was allocated and whose total is the sum of
/// its snapshots' prices preserves the store invariant.
proof fn lemma_wf_put_order(pre: StoreView, o: crate::types::OrderView)
    requires
        pre.wf(),
        1 <= o.id <= pre.counter,
        o.total_price as int == prices_total(o.products),
    ensures
        pre.with_order(o).wf(),
{
    let post = pre.with_order(o);
    assert forall|k: u64| #[trigger] post.businesses.contains_key(k) implies post.business_ok(
        k,
    ) by {
        assert(pre.business_ok(k));
    }
    assert forall|k: u64| #[trigger] post.products.contains_key(k) implies post.product_ok(k) by {
        assert(pre.product_ok(k));
    }
    assert forall|k: u64| #[trigger] post.orders.contains_key(k) implies post.order_ok(k) by {
        if k != o.id {
            assert(pre.order_ok(k));
        }
    }
}

/// Replacing only the mutable fields of a stored Business preserves the
/// store invariant.
proof fn lemma_wf_update_business(pre: StoreView, id: u64, b: crate::types::BusinessView)
    requires
        pre.wf(),
        pre.businesses.contains_key(id),
        b.id == id,
        b.products_ids == pre.businesses[id].products_ids,
    ensures
        pre.with_business(b).wf(),
{
    let post = pre.with_business(b);
    assert forall|k: u64| #[trigger] post.businesses.contains_key(k) implies post.business_ok(
        k,
    ) by {
        assert(pre.business_ok(k));
    }
    assert forall|k: u64| #[trigger] post.products.contains_key(k) implies post.product_ok(k) by {
        assert(pre.product_ok(k));
    }
    assert forall|k: u64| #[trigger] post.orders.contains_key(k) implies post.order_ok(k) by {
        assert(pre.order_ok(k));
    }
}

} // verus!
