//! A verified persistence and integrity layer for three related business
//! entities: Businesses, Products, and Orders.
//!
//! The [`store::Store`] owns three id-keyed entity tables and a monotonic id
//! allocator, and enforces referential integrity (a Business owns the set of
//! Products that point back at it), ownership-based access control, and
//! cascading deletion. Payload validation and authorization checks are pure
//! functions in [`helpers`]. The caller's principal and the current time are
//! supplied by the surrounding runtime and enter every operation as plain
//! values.

pub mod helpers;
pub mod laws;
pub mod messages;
pub mod model;
pub mod store;
pub mod types;

pub use helpers::is_caller_business_owner;
pub use helpers::is_caller_order_client;
pub use helpers::validate_business_payload;
pub use helpers::validate_product_payload;
pub use store::Store;
pub use types::Business;
pub use types::BusinessPayload;
pub use types::Error;
pub use types::Order;
pub use types::OrderPayload;
pub use types::Product;
pub use types::ProductPayload;
