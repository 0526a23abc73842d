//! Tests for the store operations: creation, update, deletion, cascade,
//! snapshots, and the error cases.

use entity_store::types::BusinessPayload;
use entity_store::types::Error;
use entity_store::types::OrderPayload;
use entity_store::types::ProductPayload;
use entity_store::Store;

const ALICE: &str = "alice";
const BOB: &str = "bob";

fn acme_payload() -> BusinessPayload {
    BusinessPayload {
        name: "Acme".to_string(),
        description: "sells widgets".to_string(),
        address: "1 Main St".to_string(),
    }
}

fn widget_payload(business_id: u64, price: u64) -> ProductPayload {
    ProductPayload {
        name: "Widget".to_string(),
        business_id,
        description: "a small widget".to_string(),
        price,
    }
}

/// The running scenario: Acme (id 1, owner alice), its Widget (id 2), and
/// bob's order of one Widget (id 3).
fn scenario() -> Store {
    let mut store = Store::new();
    store.add_business(acme_payload(), ALICE, 100).unwrap();
    store.add_product(widget_payload(1, 10), ALICE, 110).unwrap();
    store
        .create_order(OrderPayload { product_ids: vec![2] }, BOB, 120)
        .unwrap();
    store
}

#[test]
fn add_business_then_get_matches() {
    let mut store = Store::new();
    let b = store.add_business(acme_payload(), ALICE, 100).unwrap();
    assert_eq!(b.id, 1);
    assert_eq!(b.owner_principal, ALICE);
    assert_eq!(b.name, "Acme");
    assert_eq!(b.description, "sells widgets");
    assert_eq!(b.address, "1 Main St");
    assert_eq!(b.created_at, 100);
    assert_eq!(b.updated_at, None);
    assert!(b.products_ids.is_empty());

    let g = store.get_business(1).unwrap();
    assert_eq!(g.id, 1);
    assert_eq!(g.owner_principal, ALICE);
    assert_eq!(g.name, "Acme");
    assert_eq!(g.description, "sells widgets");
    assert_eq!(g.address, "1 Main St");
    assert_eq!(g.updated_at, None);
    assert!(g.products_ids.is_empty());
}

#[test]
fn get_missing_business_names_kind_and_id() {
    let store = Store::new();
    match store.get_business(42) {
        Err(Error::NotFound { msg }) => {
            assert_eq!(msg, "a business with id=42 not found");
        }
        _ => panic!("expected NotFound"),
    }
}

#[test]
fn get_missing_product_names_kind_and_id() {
    let store = Store::new();
    match store.get_product(7) {
        Err(Error::NotFound { msg }) => {
            assert_eq!(msg, "a product with id=7 not found");
        }
        _ => panic!("expected NotFound"),
    }
}

#[test]
fn get_missing_order_names_kind_and_id() {
    let store = Store::new();
    match store.get_order(1000) {
        Err(Error::NotFound { msg }) => {
            assert_eq!(msg, "an order with id=1000 not found");
        }
        _ => panic!("expected NotFound"),
    }
}

#[test]
fn invalid_business_payload_consumes_no_id() {
    let mut store = Store::new();
    let bad = BusinessPayload {
        name: String::new(),
        description: "sells widgets".to_string(),
        address: "1 Main St".to_string(),
    };
    assert!(matches!(
        store.add_business(bad, ALICE, 100),
        Err(Error::InvalidPayload { .. })
    ));
    assert_eq!(store.counter(), 0);
    let b = store.add_business(acme_payload(), ALICE, 100).unwrap();
    assert_eq!(b.id, 1);
}

#[test]
fn add_product_links_business_and_product() {
    let mut store = Store::new();
    store.add_business(acme_payload(), ALICE, 100).unwrap();
    let p = store.add_product(widget_payload(1, 10), ALICE, 110).unwrap();
    assert_eq!(p.id, 2);
    assert_eq!(p.business_id, 1);
    assert_eq!(p.price, 10);
    assert_eq!(p.created_at, 110);
    assert_eq!(p.updated_at, None);
    assert_eq!(store.get_business(1).unwrap().products_ids, vec![2]);
    assert_eq!(store.get_product(2).unwrap().name, "Widget");
}

#[test]
fn add_product_under_missing_business_fails() {
    let mut store = Store::new();
    match store.add_product(widget_payload(9, 10), ALICE, 110) {
        Err(Error::NotFound { msg }) => {
            assert_eq!(msg, "a business with id=9 not found");
        }
        _ => panic!("expected NotFound"),
    }
    assert_eq!(store.counter(), 0);
}

#[test]
fn add_product_requires_the_business_owner() {
    let mut store = Store::new();
    store.add_business(acme_payload(), ALICE, 100).unwrap();
    assert!(matches!(
        store.add_product(widget_payload(1, 10), BOB, 110),
        Err(Error::NotBusinessOwner { .. })
    ));
    assert_eq!(store.counter(), 1);
}

#[test]
fn add_product_with_zero_price_fails_and_consumes_no_id() {
    let mut store = Store::new();
    store.add_business(acme_payload(), ALICE, 100).unwrap();
    match store.add_product(widget_payload(1, 0), ALICE, 110) {
        Err(Error::InvalidPayload { errors }) => {
            assert!(errors.contains(&"Price='0' must be greater than zero.".to_string()));
        }
        _ => panic!("expected InvalidPayload"),
    }
    // the Product table gained no row and the allocator did not advance
    assert!(matches!(store.get_product(2), Err(Error::NotFound { .. })));
    assert_eq!(store.counter(), 1);
    assert!(store.get_business(1).unwrap().products_ids.is_empty());
}

#[test]
fn update_business_replaces_fields_and_keeps_owner() {
    let mut store = scenario();
    let changed = BusinessPayload {
        name: "Acme Ltd".to_string(),
        description: "sells many widgets".to_string(),
        address: "2 Side St".to_string(),
    };
    let b = store.update_business(1, changed, ALICE, 200).unwrap();
    assert_eq!(b.name, "Acme Ltd");
    assert_eq!(b.description, "sells many widgets");
    assert_eq!(b.address, "2 Side St");
    assert_eq!(b.owner_principal, ALICE);
    assert_eq!(b.created_at, 100);
    assert_eq!(b.updated_at, Some(200));
    assert_eq!(b.products_ids, vec![2]);
    let g = store.get_business(1).unwrap();
    assert_eq!(g.name, "Acme Ltd");
    assert_eq!(g.updated_at, Some(200));
}

#[test]
fn update_business_by_non_owner_changes_nothing() {
    let mut store = scenario();
    assert!(matches!(
        store.update_business(1, acme_payload(), BOB, 200),
        Err(Error::NotBusinessOwner { .. })
    ));
    let g = store.get_business(1).unwrap();
    assert_eq!(g.name, "Acme");
    assert_eq!(g.updated_at, None);
}

#[test]
fn update_business_authorizes_before_validating() {
    let mut store = scenario();
    let bad = BusinessPayload {
        name: String::new(),
        description: String::new(),
        address: String::new(),
    };
    // a stranger with an invalid payload is turned away as a stranger
    assert!(matches!(
        store.update_business(1, bad, BOB, 200),
        Err(Error::NotBusinessOwner { .. })
    ));
}

#[test]
fn update_missing_business_fails() {
    let mut store = Store::new();
    match store.update_business(3, acme_payload(), ALICE, 200) {
        Err(Error::NotFound { msg }) => {
            assert_eq!(msg, "couldn't update a business with id=3. business not found");
        }
        _ => panic!("expected NotFound"),
    }
}

#[test]
fn update_product_replaces_fields_and_keeps_business() {
    let mut store = scenario();
    let changed = ProductPayload {
        name: "Widget Pro".to_string(),
        business_id: 77,
        description: "a bigger widget".to_string(),
        price: 25,
    };
    // the payload's business id is never taken: the link is immutable
    let p = store.update_product(2, changed, ALICE, 300).unwrap();
    assert_eq!(p.name, "Widget Pro");
    assert_eq!(p.price, 25);
    assert_eq!(p.business_id, 1);
    assert_eq!(p.created_at, 110);
    assert_eq!(p.updated_at, Some(300));
    assert_eq!(store.get_product(2).unwrap().price, 25);
}

#[test]
fn update_product_by_non_owner_changes_nothing() {
    let mut store = scenario();
    assert!(matches!(
        store.update_product(2, widget_payload(1, 99), BOB, 300),
        Err(Error::NotBusinessOwner { .. })
    ));
    assert_eq!(store.get_product(2).unwrap().price, 10);
    assert_eq!(store.get_product(2).unwrap().updated_at, None);
}

#[test]
fn update_missing_product_fails() {
    let mut store = scenario();
    match store.update_product(9, widget_payload(1, 99), ALICE, 300) {
        Err(Error::NotFound { msg }) => {
            assert_eq!(msg, "couldn't update a product with id=9. product not found");
        }
        _ => panic!("expected NotFound"),
    }
}

#[test]
fn order_snapshots_products_and_sums_prices() {
    let mut store = Store::new();
    store.add_business(acme_payload(), ALICE, 100).unwrap();
    store.add_product(widget_payload(1, 10), ALICE, 110).unwrap();
    store.add_product(widget_payload(1, 32), ALICE, 111).unwrap();
    let o = store
        .create_order(OrderPayload { product_ids: vec![2, 3, 2] }, BOB, 120)
        .unwrap();
    assert_eq!(o.id, 4);
    assert_eq!(o.client_principal, BOB);
    assert_eq!(o.total_price, 52);
    assert_eq!(o.created_at, 120);
    assert_eq!(o.updated_at, None);
    let ids: Vec<u64> = o.products.iter().map(|p| p.id).collect();
    assert_eq!(ids, vec![2, 3, 2]);
}

#[test]
fn order_total_survives_later_price_updates() {
    let mut store = scenario();
    store.update_product(2, widget_payload(1, 999), ALICE, 300).unwrap();
    let o = store.get_order(3).unwrap();
    assert_eq!(o.total_price, 10);
    assert_eq!(o.products[0].price, 10);
}

#[test]
fn create_order_aborts_on_first_missing_product() {
    let mut store = scenario();
    match store.create_order(OrderPayload { product_ids: vec![2, 999, 2] }, BOB, 130) {
        Err(Error::NotFound { msg }) => {
            assert_eq!(msg, "product with id=999 not found");
        }
        _ => panic!("expected NotFound"),
    }
    // no partial Order was left behind and no id was consumed
    assert!(matches!(store.get_order(4), Err(Error::NotFound { .. })));
    assert_eq!(store.counter(), 3);
}

#[test]
fn update_order_replaces_snapshots_entirely() {
    let mut store = scenario();
    store.add_product(widget_payload(1, 5), ALICE, 115).unwrap();
    let o = store
        .update_order(3, OrderPayload { product_ids: vec![4, 4] }, BOB, 400)
        .unwrap();
    assert_eq!(o.total_price, 10);
    let ids: Vec<u64> = o.products.iter().map(|p| p.id).collect();
    assert_eq!(ids, vec![4, 4]);
    assert_eq!(o.client_principal, BOB);
    assert_eq!(o.created_at, 120);
    assert_eq!(o.updated_at, Some(400));
}

#[test]
fn update_order_with_missing_product_changes_nothing() {
    let mut store = scenario();
    match store.update_order(3, OrderPayload { product_ids: vec![999] }, BOB, 400) {
        Err(Error::NotFound { msg }) => {
            assert_eq!(msg, "product with id=999 not found");
        }
        _ => panic!("expected NotFound"),
    }
    let o = store.get_order(3).unwrap();
    assert_eq!(o.total_price, 10);
    assert_eq!(o.products.len(), 1);
    assert_eq!(o.products[0].id, 2);
    assert_eq!(o.updated_at, None);
}

#[test]
fn update_order_by_non_client_changes_nothing() {
    let mut store = scenario();
    assert!(matches!(
        store.update_order(3, OrderPayload { product_ids: vec![2] }, ALICE, 400),
        Err(Error::NotOrderClient { .. })
    ));
    assert_eq!(store.get_order(3).unwrap().updated_at, None);
}

#[test]
fn update_missing_order_fails() {
    let mut store = scenario();
    match store.update_order(8, OrderPayload { product_ids: vec![2] }, BOB, 400) {
        Err(Error::NotFound { msg }) => {
            assert_eq!(msg, "couldn't update an order with id=8. order not found");
        }
        _ => panic!("expected NotFound"),
    }
}

#[test]
fn delete_product_unlinks_it_from_its_business() {
    let mut store = scenario();
    let p = store.delete_product(2, ALICE).unwrap();
    assert_eq!(p.id, 2);
    assert!(matches!(store.get_product(2), Err(Error::NotFound { .. })));
    assert!(store.get_business(1).unwrap().products_ids.is_empty());
}

#[test]
fn delete_product_requires_the_business_owner() {
    let mut store = scenario();
    assert!(matches!(
        store.delete_product(2, BOB),
        Err(Error::NotBusinessOwner { .. })
    ));
    assert!(store.get_product(2).is_ok());
}

#[test]
fn delete_order_requires_the_client() {
    let mut store = scenario();
    assert!(matches!(
        store.delete_order(3, ALICE),
        Err(Error::NotOrderClient { .. })
    ));
    let o = store.delete_order(3, BOB).unwrap();
    assert_eq!(o.id, 3);
    assert!(matches!(store.get_order(3), Err(Error::NotFound { .. })));
}

#[test]
fn delete_business_cascades_to_its_products() {
    let mut store = scenario();
    store.add_product(widget_payload(1, 7), ALICE, 115).unwrap();
    let b = store.delete_business(1, ALICE).unwrap();
    // the returned record is the Business as it stood before the cascade
    assert_eq!(b.id, 1);
    assert_eq!(b.products_ids, vec![2, 4]);
    assert!(matches!(store.get_business(1), Err(Error::NotFound { .. })));
    assert!(matches!(store.get_product(2), Err(Error::NotFound { .. })));
    assert!(matches!(store.get_product(4), Err(Error::NotFound { .. })));
}

#[test]
fn delete_business_requires_the_owner() {
    let mut store = scenario();
    assert!(matches!(
        store.delete_business(1, BOB),
        Err(Error::NotBusinessOwner { .. })
    ));
    assert!(store.get_business(1).is_ok());
    assert!(store.get_product(2).is_ok());
}

#[test]
fn deleted_ids_are_never_reused() {
    let mut store = scenario();
    store.delete_business(1, ALICE).unwrap();
    let b = store.add_business(acme_payload(), ALICE, 500).unwrap();
    assert_eq!(b.id, 4);
}

#[test]
fn full_marketplace_scenario() {
    let mut store = Store::new();

    let b = store.add_business(acme_payload(), ALICE, 100).unwrap();
    assert_eq!(b.id, 1);
    assert_eq!(b.owner_principal, ALICE);

    let p = store.add_product(widget_payload(1, 10), ALICE, 110).unwrap();
    assert_eq!(p.id, 2);
    assert_eq!(p.business_id, 1);
    assert_eq!(store.get_business(1).unwrap().products_ids, vec![2]);

    let o = store
        .create_order(OrderPayload { product_ids: vec![2] }, BOB, 120)
        .unwrap();
    assert_eq!(o.id, 3);
    assert_eq!(o.total_price, 10);
    assert_eq!(o.client_principal, BOB);

    store.delete_business(1, ALICE).unwrap();
    match store.get_product(2) {
        Err(Error::NotFound { msg }) => {
            assert_eq!(msg, "a product with id=2 not found");
        }
        _ => panic!("expected NotFound"),
    }
    // the order records history: it survives the cascade untouched
    let o = store.get_order(3).unwrap();
    assert_eq!(o.total_price, 10);
    assert_eq!(o.products.len(), 1);
    assert_eq!(o.products[0].name, "Widget");
}

#[test]
fn create_order_with_no_products_has_zero_total() {
    let mut store = Store::new();
    let o = store
        .create_order(OrderPayload { product_ids: vec![] }, BOB, 120)
        .unwrap();
    assert_eq!(o.id, 1);
    assert_eq!(o.total_price, 0);
    assert!(o.products.is_empty());
}

#[test]
fn cascade_spares_other_businesses() {
    let mut store = Store::new();
    store.add_business(acme_payload(), ALICE, 100).unwrap();
    let other = BusinessPayload {
        name: "Globex".to_string(),
        description: "sells gadgets".to_string(),
        address: "9 High St".to_string(),
    };
    store.add_business(other, BOB, 101).unwrap();
    store.add_product(widget_payload(1, 10), ALICE, 110).unwrap();
    store.add_product(widget_payload(2, 20), BOB, 111).unwrap();

    store.delete_business(1, ALICE).unwrap();

    assert!(matches!(store.get_product(3), Err(Error::NotFound { .. })));
    let kept = store.get_product(4).unwrap();
    assert_eq!(kept.business_id, 2);
    assert_eq!(store.get_business(2).unwrap().products_ids, vec![4]);
}
