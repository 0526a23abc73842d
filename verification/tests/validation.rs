//! Tests for payload validation and the authorization checks.

use entity_store::types::Business;
use entity_store::types::BusinessPayload;
use entity_store::types::Error;
use entity_store::types::Order;
use entity_store::types::ProductPayload;
use entity_store::validate_business_payload;
use entity_store::validate_product_payload;
use entity_store::is_caller_business_owner;
use entity_store::is_caller_order_client;

fn business_payload(name: &str, description: &str, address: &str) -> BusinessPayload {
    BusinessPayload {
        name: name.to_string(),
        description: description.to_string(),
        address: address.to_string(),
    }
}

fn product_payload(name: &str, business_id: u64, description: &str, price: u64) -> ProductPayload {
    ProductPayload {
        name: name.to_string(),
        business_id,
        description: description.to_string(),
        price,
    }
}

#[test]
fn valid_business_payload_passes() {
    let p = business_payload("Acme", "sells widgets", "1 Main St");
    assert!(validate_business_payload(&p).is_ok());
}

#[test]
fn business_name_must_not_be_blank() {
    let p = business_payload("   ", "sells widgets", "1 Main St");
    match validate_business_payload(&p) {
        Err(Error::InvalidPayload { errors }) => {
            assert_eq!(errors, vec!["Business name='   ' cannot be empty.".to_string()]);
        }
        _ => panic!("expected InvalidPayload"),
    }
}

#[test]
fn business_description_needs_two_tokens() {
    let p = business_payload("Acme", "widgets", "1 Main St");
    match validate_business_payload(&p) {
        Err(Error::InvalidPayload { errors }) => {
            assert_eq!(errors, vec!["Description='widgets' needs to be descriptive.".to_string()]);
        }
        _ => panic!("expected InvalidPayload"),
    }
}

#[test]
fn business_address_must_not_be_blank() {
    let p = business_payload("Acme", "sells widgets", "");
    match validate_business_payload(&p) {
        Err(Error::InvalidPayload { errors }) => {
            assert_eq!(errors, vec!["Address='' cannot be empty.".to_string()]);
        }
        _ => panic!("expected InvalidPayload"),
    }
}

#[test]
fn business_violations_are_collected_together() {
    let p = business_payload("", " ", "  ");
    match validate_business_payload(&p) {
        Err(Error::InvalidPayload { errors }) => {
            assert_eq!(
                errors,
                vec![
                    "Business name='' cannot be empty.".to_string(),
                    "Description=' ' needs to be descriptive.".to_string(),
                    "Address='  ' cannot be empty.".to_string(),
                ]
            );
        }
        _ => panic!("expected InvalidPayload"),
    }
}

#[test]
fn surrounding_whitespace_is_trimmed_before_the_checks() {
    // a name of only whitespace is blank; one with any other character is not
    assert!(validate_business_payload(&business_payload(" x ", "sells widgets", "1 Main St"))
        .is_ok());
    assert!(validate_business_payload(&business_payload("\t\n", "sells widgets", "1 Main St"))
        .is_err());
    // a trailing space gives "a " only one token once trimmed
    assert!(validate_business_payload(&business_payload("Acme", "a ", "1 Main St")).is_err());
    // interior space survives trimming
    assert!(validate_business_payload(&business_payload("Acme", "  a b  ", "1 Main St")).is_ok());
}

#[test]
fn valid_product_payload_passes() {
    let p = product_payload("Widget", 1, "a small widget", 10);
    assert!(validate_product_payload(&p).is_ok());
}

#[test]
fn product_price_zero_is_rejected() {
    let p = product_payload("Widget", 1, "a small widget", 0);
    match validate_product_payload(&p) {
        Err(Error::InvalidPayload { errors }) => {
            assert_eq!(errors, vec!["Price='0' must be greater than zero.".to_string()]);
        }
        _ => panic!("expected InvalidPayload"),
    }
}

#[test]
fn product_violations_are_collected_together() {
    let p = product_payload("", 1, "widget", 0);
    match validate_product_payload(&p) {
        Err(Error::InvalidPayload { errors }) => {
            assert_eq!(
                errors,
                vec![
                    "Product name='' cannot be empty.".to_string(),
                    "Description='widget' needs to be descriptive.".to_string(),
                    "Price='0' must be greater than zero.".to_string(),
                ]
            );
        }
        _ => panic!("expected InvalidPayload"),
    }
}

#[test]
fn owner_check_compares_the_recorded_principal() {
    let business = Business {
        id: 1,
        name: "Acme".to_string(),
        owner_principal: "alice".to_string(),
        description: "sells widgets".to_string(),
        address: "1 Main St".to_string(),
        created_at: 0,
        updated_at: None,
        products_ids: Vec::new(),
    };
    assert!(is_caller_business_owner(&business, "alice").is_ok());
    match is_caller_business_owner(&business, "bob") {
        Err(Error::NotBusinessOwner { msg }) => {
            assert_eq!(msg, "Caller is not the principal of the business owner");
        }
        _ => panic!("expected NotBusinessOwner"),
    }
}

#[test]
fn client_check_compares_the_recorded_principal() {
    let order = Order {
        id: 1,
        client_principal: "bob".to_string(),
        products: Vec::new(),
        total_price: 0,
        created_at: 0,
        updated_at: None,
    };
    assert!(is_caller_order_client(&order, "bob").is_ok());
    match is_caller_order_client(&order, "alice") {
        Err(Error::NotOrderClient { msg }) => {
            assert_eq!(msg, "Caller is not the principal of the order's client");
        }
        _ => panic!("expected NotOrderClient"),
    }
}

#[test]
fn any_whitespace_separates_description_tokens() {
    // two words parted by a tab or a newline count as two tokens
    assert!(validate_business_payload(&business_payload("Acme", "a\tb", "1 Main St")).is_ok());
    assert!(validate_business_payload(&business_payload("Acme", "a\nb", "1 Main St")).is_ok());
    assert!(validate_product_payload(&product_payload("Widget", 1, "small\twidget", 10)).is_ok());
    // whitespace at the ends alone still leaves a single token
    assert!(validate_business_payload(&business_payload("Acme", "\ta\t", "1 Main St")).is_err());
    assert!(validate_product_payload(&product_payload("Widget", 1, "widget\n", 10)).is_err());
}
