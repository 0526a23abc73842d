//! Entity records, request payloads, and the typed error value.
//!
//! Each executable record has a ghost view (`BusinessView`, `ProductView`,
//! `OrderView`) over mathematical types; all store contracts are stated over
//! those views.

use vstd::prelude::*;

verus! {

/// A Business entity: owns an ordered list of Product ids.
#[derive(Debug)]
pub struct Business {
    pub id: u64,
    pub name: String,
    pub owner_principal: String,
    pub description: String,
    pub address: String,
    pub created_at: u64,
    pub updated_at: Option<u64>,
    pub products_ids: Vec<u64>,
}

/// A Product entity: belongs to exactly one Business for its lifetime.
#[derive(Debug)]
pub struct Product {
    pub id: u64,
    pub business_id: u64,
    pub name: String,
    pub description: String,
    pub price: u64,
    pub created_at: u64,
    pub updated_at: Option<u64>,
}

/// An Order entity: holds by-value snapshots of the Products it was created
/// from, decoupled from later changes to the live Products.
#[derive(Debug)]
pub struct Order {
    pub id: u64,
    pub client_principal: String,
    pub products: Vec<Product>,
    pub total_price: u64,
    pub created_at: u64,
    pub updated_at: Option<u64>,
}

/// The mutable fields of a Business, as supplied by a caller.
#[derive(Debug)]
pub struct BusinessPayload {
    pub name: String,
    pub description: String,
    pub address: String,
}

/// The mutable fields of a Product, as supplied by a caller.
#[derive(Debug)]
pub struct ProductPayload {
    pub name: String,
    pub business_id: u64,
    pub description: String,
    pub price: u64,
}

/// An Order request: the ids of the Products to snapshot.
#[derive(Debug)]
pub struct OrderPayload {
    pub product_ids: Vec<u64>,
}

/// The typed failure value every operation may return.
#[derive(Debug)]
pub enum Error {
    NotFound { msg: String },
    InvalidPayload { errors: Vec<String> },
    NotBusinessOwner { msg: String },
    NotOrderClient { msg: String },
}

/// Ghost image of a [`Business`].
#[verifier::ext_equal]
pub struct BusinessView {
    pub id: u64,
    pub name: Seq<char>,
    pub owner_principal: Seq<char>,
    pub description: Seq<char>,
    pub address: Seq<char>,
    pub created_at: u64,
    pub updated_at: Option<u64>,
    pub products_ids: Seq<u64>,
}

/// Ghost image of a [`Product`].
#[verifier::ext_equal]
pub struct ProductView {
    pub id: u64,
    pub business_id: u64,
    pub name: Seq<char>,
    pub description: Seq<char>,
    pub price: u64,
    pub created_at: u64,
    pub updated_at: Option<u64>,
}

/// Ghost image of an [`Order`].
#[verifier::ext_equal]
pub struct OrderView {
    pub id: u64,
    pub client_principal: Seq<char>,
    pub products: Seq<ProductView>,
    pub total_price: u64,
    pub created_at: u64,
    pub updated_at: Option<u64>,
}

/// Ghost image of a [`BusinessPayload`].
#[verifier::ext_equal]
pub struct BusinessPayloadView {
    pub name: Seq<char>,
    pub description: Seq<char>,
    pub address: Seq<char>,
}

/// Ghost image of a [`ProductPayload`].
#[verifier::ext_equal]
pub struct ProductPayloadView {
    pub name: Seq<char>,
    pub business_id: u64,
    pub description: Seq<char>,
    pub price: u64,
}

impl View for Business {
    type V = BusinessView;

    open spec fn view(&self) -> BusinessView {
        BusinessView {
            id: self.id,
            name: self.name@,
            owner_principal: self.owner_principal@,
            description: self.description@,
            address: self.address@,
            created_at: self.created_at,
            updated_at: self.updated_at,
            products_ids: self.products_ids@,
        }
    }
}

impl View for Product {
    type V = ProductView;

    open spec fn view(&self) -> ProductView {
        ProductView {
            id: self.id,
            business_id: self.business_id,
            name: self.name@,
            description: self.description@,
            price: self.price,
            created_at: self.created_at,
            updated_at: self.updated_at,
        }
    }
}

impl View for Order {
    type V = OrderView;

    open spec fn view(&self) -> OrderView {
        OrderView {
            id: self.id,
            client_principal: self.client_principal@,
            products: self.products@.map_values(|p: Product| p@),
            total_price: self.total_price,
            created_at: self.created_at,
            updated_at: self.updated_at,
        }
    }
}

impl View for BusinessPayload {
    type V = BusinessPayloadView;

    open spec fn view(&self) -> BusinessPayloadView {
        BusinessPayloadView {
            name: self.name@,
            description: self.description@,
            address: self.address@,
        }
    }
}

impl View for ProductPayload {
    type V = ProductPayloadView;

    open spec fn view(&self) -> ProductPayloadView {
        ProductPayloadView {
            name: self.name@,
            business_id: self.business_id,
            description: self.description@,
            price: self.price,
        }
    }
}

impl Clone for Business {
    /// A clone carries the same view as the original.
    fn clone(&self) -> (r: Self)
        ensures
            r@ == self@,
    {
        Business {
            id: self.id,
            name: self.name.clone(),
            owner_principal: self.owner_principal.clone(),
            description: self.description.clone(),
            address: self.address.clone(),
            created_at: self.created_at,
            updated_at: self.updated_at,
            products_ids: clone_id_list(&self.products_ids),
        }
    }
}

impl Clone for Product {
    /// A clone carries the same view as the original.
    fn clone(&self) -> (r: Self)
        ensures
            r@ == self@,
    {
        Product {
            id: self.id,
            business_id: self.business_id,
            name: self.name.clone(),
            description: self.description.clone(),
            price: self.price,
            created_at: self.created_at,
            updated_at: self.updated_at,
        }
    }
}

impl Clone for Order {
    /// A clone carries the same view as the original.
    fn clone(&self) -> (r: Self)
        ensures
            r@ == self@,
    {
        let r = Order {
            id: self.id,
            client_principal: self.client_principal.clone(),
            products: clone_product_list(&self.products),
            total_price: self.total_price,
            created_at: self.created_at,
            updated_at: self.updated_at,
        };
        proof {
            assert(r@.products =~= self@.products);
        }
        r
    }
}

/// Copies a list of entity ids.
fn clone_id_list(v: &Vec<u64>) -> (r: Vec<u64>)
    ensures
        r@ == v@,
{
    let r = v.clone();
    proof {
        assert(r@ =~= v@);
    }
    r
}

/// Copies a list of Product snapshots, element by element.
fn clone_product_list(v: &Vec<Product>) -> (r: Vec<Product>)
    ensures
        r@.map_values(|p: Product| p@) == v@.map_values(|p: Product| p@),
{
    let mut r: Vec<Product> = Vec::new();
    let mut i: usize = 0;
    while i < v.len()
        invariant
            i <= v.len(),
            r@.len() == i,
            forall|j: int| 0 <= j < i ==> r@[j]@ == v@[j]@,
        decreases v.len() - i,
    {
        r.push(v[i].clone());
        i = i + 1;
    }
    proof {
        assert(r@.map_values(|p: Product| p@) =~= v@.map_values(|p: Product| p@));
    }
    r
}

} // verus!
