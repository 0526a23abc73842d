//! The human-readable texts carried by [`crate::types::Error`] values.
//!
//! Every message is pinned exactly: a spec function gives the text as a
//! `Seq<char>`, and a verified builder produces a `String` with that view.
//! Entity ids are rendered in decimal by a verified formatter.

use vstd::prelude::*;

verus! {

/// The decimal digit character for `d` (meaningful for `d < 10`).
pub open spec fn dec_digit(d: nat) -> char {
    if d == 0 {
        '0'
    } else if d == 1 {
        '1'
    } else if d == 2 {
        '2'
    } else if d == 3 {
        '3'
    } else if d == 4 {
        '4'
    } else if d == 5 {
        '5'
    } else if d == 6 {
        '6'
    } else if d == 7 {
        '7'
    } else if d == 8 {
        '8'
    } else {
        '9'
    }
}

/// The decimal rendering of `n`, most significant digit first.
pub open spec fn dec_str(n: nat) -> Seq<char>
    decreases n,
{
    if n < 10 {
        seq![dec_digit(n)]
    } else {
        dec_str(n / 10).push(dec_digit(n % 10))
    }
}

/// The one-character string for decimal digit `d`.
fn digit_str(d: u64) -> (r: &'static str)
    requires
        d < 10,
    ensures
        r@ == seq![dec_digit(d as nat)],
{
    proof {
        reveal_strlit("0");
        reveal_strlit("1");
        reveal_strlit("2");
        reveal_strlit("3");
        reveal_strlit("4");
        reveal_strlit("5");
        reveal_strlit("6");
        reveal_strlit("7");
        reveal_strlit("8");
        reveal_strlit("9");
    }
    let r = if d == 0 {
        "0"
    } else if d == 1 {
        "1"
    } else if d == 2 {
        "2"
    } else if d == 3 {
        "3"
    } else if d == 4 {
        "4"
    } else if d == 5 {
        "5"
    } else if d == 6 {
        "6"
    } else if d == 7 {
        "7"
    } else if d == 8 {
        "8"
    } else {
        "9"
    };
    proof {
        assert(r@ =~= seq![dec_digit(d as nat)]);
    }
    r
}

/// Appends the decimal rendering of `n` to `out`.
fn push_dec(n: u64, out: &mut String)
    ensures
        final(out)@ == old(out)@ + dec_str(n as nat),
    decreases n,
{
    if n >= 10 {
        push_dec(n / 10, out);
    }
    out.append(digit_str(n % 10));
    proof {
        assert(out@ =~= old(out)@ + dec_str(n as nat));
    }
}

/// Text of the NotFound error for a Business lookup.
pub open spec fn business_not_found_msg(id: u64) -> Seq<char> {
    "a business with id="@ + dec_str(id as nat) + " not found"@
}

/// Text of the NotFound error when an update names an absent Business.
pub open spec fn business_update_not_found_msg(id: u64) -> Seq<char> {
    "couldn't update a business with id="@ + dec_str(id as nat) + ". business not found"@
}

/// Text of the NotFound error for a Product lookup.
pub open spec fn product_not_found_msg(id: u64) -> Seq<char> {
    "a product with id="@ + dec_str(id as nat) + " not found"@
}

/// Text of the NotFound error when an update names an absent Product.
pub open spec fn product_update_not_found_msg(id: u64) -> Seq<char> {
    "couldn't update a product with id="@ + dec_str(id as nat) + ". product not found"@
}

/// Text of the NotFound error for an Order lookup.
pub open spec fn order_not_found_msg(id: u64) -> Seq<char> {
    "an order with id="@ + dec_str(id as nat) + " not found"@
}

/// Text of the NotFound error when an update names an absent Order.
pub open spec fn order_update_not_found_msg(id: u64) -> Seq<char> {
    "couldn't update an order with id="@ + dec_str(id as nat) + ". order not found"@
}

/// Text of the NotFound error for an unresolved Product id in an Order request.
pub open spec fn order_product_not_found_msg(id: u64) -> Seq<char> {
    "product with id="@ + dec_str(id as nat) + " not found"@
}

/// Text of the NotBusinessOwner error.
pub open spec fn not_business_owner_msg() -> Seq<char> {
    "Caller is not the principal of the business owner"@
}

/// Text of the NotOrderClient error.
pub open spec fn not_order_client_msg() -> Seq<char> {
    "Caller is not the principal of the order's client"@
}

/// Builds `prefix`, then the decimal rendering of `id`, then `suffix`.
fn build_id_message(prefix: &str, id: u64, suffix: &str) -> (r: String)
    ensures
        r@ == prefix@ + dec_str(id as nat) + suffix@,
{
    let mut s = prefix.to_owned();
    push_dec(id, &mut s);
    s.append(suffix);
    proof {
        assert(s@ =~= prefix@ + dec_str(id as nat) + suffix@);
    }
    s
}

/// Builds the message of [`business_not_found_msg`].
pub fn business_not_found_message(id: u64) -> (r: String)
    ensures
        r@ == business_not_found_msg(id),
{
    build_id_message("a business with id=", id, " not found")
}

/// Builds the message of [`business_update_not_found_msg`].
pub fn business_update_not_found_message(id: u64) -> (r: String)
    ensures
        r@ == business_update_not_found_msg(id),
{
    build_id_message("couldn't update a business with id=", id, ". business not found")
}

/// Builds the message of [`product_not_found_msg`].
pub fn product_not_found_message(id: u64) -> (r: String)
    ensures
        r@ == product_not_found_msg(id),
{
    build_id_message("a product with id=", id, " not found")
}

/// Builds the message of [`product_update_not_found_msg`].
pub fn product_update_not_found_message(id: u64) -> (r: String)
    ensures
        r@ == product_update_not_found_msg(id),
{
    build_id_message("couldn't update a product with id=", id, ". product not found")
}

/// Builds the message of [`order_not_found_msg`].
pub fn order_not_found_message(id: u64) -> (r: String)
    ensures
        r@ == order_not_found_msg(id),
{
    build_id_message("an order with id=", id, " not found")
}

/// Builds the message of [`order_update_not_found_msg`].
pub fn order_update_not_found_message(id: u64) -> (r: String)
    ensures
        r@ == order_update_not_found_msg(id),
{
    build_id_message("couldn't update an order with id=", id, ". order not found")
}

/// Builds the message of [`order_product_not_found_msg`].
pub fn order_product_not_found_message(id: u64) -> (r: String)
    ensures
        r@ == order_product_not_found_msg(id),
{
    build_id_message("product with id=", id, " not found")
}

/// Text of a Business name violation: the offending name is quoted inline.
pub open spec fn business_name_msg(name: Seq<char>) -> Seq<char> {
    "Business name='"@ + name + "' cannot be empty."@
}

/// Text of a Product name violation: the offending name is quoted inline.
pub open spec fn product_name_msg(name: Seq<char>) -> Seq<char> {
    "Product name='"@ + name + "' cannot be empty."@
}

/// Text of a description violation: the offending text is quoted inline.
pub open spec fn description_msg(description: Seq<char>) -> Seq<char> {
    "Description='"@ + description + "' needs to be descriptive."@
}

/// Text of an address violation: the offending address is quoted inline.
pub open spec fn address_msg(address: Seq<char>) -> Seq<char> {
    "Address='"@ + address + "' cannot be empty."@
}

/// Text of a price violation; a price only violates the rule by being zero.
pub open spec fn price_msg() -> Seq<char> {
    "Price='0' must be greater than zero."@
}

/// Builds `prefix`, then `text`, then `suffix`.
fn build_quoted_message(prefix: &str, text: &str, suffix: &str) -> (r: String)
    ensures
        r@ == prefix@ + text@ + suffix@,
{
    let mut s = prefix.to_owned();
    s.append(text);
    s.append(suffix);
    proof {
        assert(s@ =~= prefix@ + text@ + suffix@);
    }
    s
}

/// Builds the message of [`business_name_msg`].
pub fn business_name_message(name: &str) -> (r: String)
    ensures
        r@ == business_name_msg(name@),
{
    build_quoted_message("Business name='", name, "' cannot be empty.")
}

/// Builds the message of [`product_name_msg`].
pub fn product_name_message(name: &str) -> (r: String)
    ensures
        r@ == product_name_msg(name@),
{
    build_quoted_message("Product name='", name, "' cannot be empty.")
}

/// Builds the message of [`description_msg`].
pub fn description_message(description: &str) -> (r: String)
    ensures
        r@ == description_msg(description@),
{
    build_quoted_message("Description='", description, "' needs to be descriptive.")
}

/// Builds the message of [`address_msg`].
pub fn address_message(address: &str) -> (r: String)
    ensures
        r@ == address_msg(address@),
{
    build_quoted_message("Address='", address, "' cannot be empty.")
}

/// Builds the message of [`price_msg`].
pub fn price_message() -> (r: String)
    ensures
        r@ == price_msg(),
{
    String::from_str("Price='0' must be greater than zero.")
}

/// Builds the message of [`not_business_owner_msg`].
pub fn not_business_owner_message() -> (r: String)
    ensures
        r@ == not_business_owner_msg(),
{
    String::from_str("Caller is not the principal of the business owner")
}

/// Builds the message of [`not_order_client_msg`].
pub fn not_order_client_message() -> (r: String)
    ensures
        r@ == not_order_client_msg(),
{
    String::from_str("Caller is not the principal of the order's client")
}

} // verus!
