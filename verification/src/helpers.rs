//! Pure field-level payload validation and caller-authorization checks.
//!
//! A failing validation returns every violation for the payload at once,
//! never just the first. The authorization checks compare the caller's
//! principal, supplied by the runtime as a plain string, against the
//! identity recorded on the entity.

use vstd::prelude::*;

use crate::messages::address_message;
use crate::messages::address_msg;
use crate::messages::business_name_message;
use crate::messages::business_name_msg;
use crate::messages::description_message;
use crate::messages::description_msg;
use crate::messages::not_business_owner_message;
use crate::messages::not_business_owner_msg;
use crate::messages::not_order_client_message;
use crate::messages::not_order_client_msg;
use crate::messages::price_message;
use crate::messages::price_msg;
use crate::messages::product_name_message;
use crate::messages::product_name_msg;
use crate::types::Business;
use crate::types::BusinessPayload;
use crate::types::BusinessPayloadView;
use crate::types::Error;
use crate::types::Order;
use crate::types::ProductPayload;
use crate::types::ProductPayloadView;

verus! {

/// Whether `c` is a whitespace character (the Unicode White_Space set, the
/// set of characters that trimming a string removes from its ends).
pub open spec fn is_space(c: char) -> bool {
    ||| c == ' '
    ||| c == '\t'
    ||| c == '\n'
    ||| c == '\u{b}'
    ||| c == '\u{c}'
    ||| c == '\r'
    ||| c == '\u{85}'
    ||| c == '\u{a0}'
    ||| c == '\u{1680}'
    ||| (0x2000 <= c as u32 && c as u32 <= 0x200a)
    ||| c == '\u{2028}'
    ||| c == '\u{2029}'
    ||| c == '\u{202f}'
    ||| c == '\u{205f}'
    ||| c == '\u{3000}'
}

/// Whether `s` is empty once surrounding whitespace is trimmed away:
/// every character of `s` is whitespace.
pub open spec fn blank(s: Seq<char>) -> bool {
    forall|i: int| 0 <= i < s.len() ==> is_space(#[trigger] s[i])
}

/// Whether `s` still holds whitespace once surrounding whitespace is
/// trimmed away — that is, some whitespace character stands between two
/// non-whitespace ones — so that `s` splits into at least two
/// whitespace-separated tokens.
pub open spec fn descriptive(s: Seq<char>) -> bool {
    exists|i: int, j: int, k: int|
        {
            &&& 0 <= i < j < k < s.len()
            &&& !is_space(#[trigger] s[i])
            &&& is_space(#[trigger] s[j])
            &&& !is_space(#[trigger] s[k])
        }
}

/// Whether a Business payload passes every field check.
pub open spec fn business_payload_valid(p: BusinessPayloadView) -> bool {
    &&& !blank(p.name)
    &&& descriptive(p.description)
    &&& !blank(p.address)
}

/// The violation messages for a Business payload, in field order.
pub open spec fn business_payload_errors(p: BusinessPayloadView) -> Seq<Seq<char>> {
    (if blank(p.name) {
        seq![business_name_msg(p.name)]
    } else {
        Seq::<Seq<char>>::empty()
    }) + (if !descriptive(p.description) {
        seq![description_msg(p.description)]
    } else {
        Seq::<Seq<char>>::empty()
    }) + (if blank(p.address) {
        seq![address_msg(p.address)]
    } else {
        Seq::<Seq<char>>::empty()
    })
}

/// Whether a Product payload passes every field check.
pub open spec fn product_payload_valid(p: ProductPayloadView) -> bool {
    &&& !blank(p.name)
    &&& descriptive(p.description)
    &&& p.price != 0
}

/// The violation messages for a Product payload, in field order.
pub open spec fn product_payload_errors(p: ProductPayloadView) -> Seq<Seq<char>> {
    (if blank(p.name) {
        seq![product_name_msg(p.name)]
    } else {
        Seq::<Seq<char>>::empty()
    }) + (if !descriptive(p.description) {
        seq![description_msg(p.description)]
    } else {
        Seq::<Seq<char>>::empty()
    }) + (if p.price == 0 {
        seq![price_msg()]
    } else {
        Seq::<Seq<char>>::empty()
    })
}

/// Whether `c` is whitespace.
fn is_space_char(c: char) -> (r: bool)
    ensures
        r == is_space(c),
{
    let u = c as u32;
    ||| u == 0x20
    ||| (0x9 <= u && u <= 0xd)
    ||| u == 0x85
    ||| u == 0xa0
    ||| u == 0x1680
    ||| (0x2000 <= u && u <= 0x200a)
    ||| u == 0x2028
    ||| u == 0x2029
    ||| u == 0x202f
    ||| u == 0x205f
    ||| u == 0x3000
}

/// Whether `s` trims to the empty string.
fn is_blank(s: &str) -> (r: bool)
    ensures
        r == blank(s@),
{
    let n = s.unicode_len();
    let mut i: usize = 0;
    while i < n
        invariant
            i <= n,
            n == s@.len(),
            forall|j: int| 0 <= j < i ==> is_space(#[trigger] s@[j]),
        decreases n - i,
    {
        if !is_space_char(s.get_char(i)) {
            return false;
        }
        i = i + 1;
    }
    true
}

/// Whether `s` trims to a text that still contains whitespace.
fn is_descriptive(s: &str) -> (r: bool)
    ensures
        r == descriptive(s@),
{
    let n = s.unicode_len();
    let mut seen_word = false;
    let mut seen_sep = false;
    let mut i: usize = 0;
    while i < n
        invariant
            i <= n,
            n == s@.len(),
            seen_word == exists|a: int| 0 <= a < i && !is_space(#[trigger] s@[a]),
            seen_sep == exists|a: int, b: int|
                0 <= a < b < i && !is_space(#[trigger] s@[a]) && is_space(#[trigger] s@[b]),
            !descriptive(s@.take(i as int)),
        decreases n - i,
    {
        let c = s.get_char(i);
        let sp = is_space_char(c);
        if !sp && seen_sep {
            proof {
                let (a, b) = choose|a: int, b: int|
                    0 <= a < b < i && !is_space(s@[a]) && is_space(s@[b]);
                assert(!is_space(s@[i as int]));
                assert(descriptive(s@));
            }
            return true;
        }
        proof {
            assert forall|x: int, y: int, z: int|
                0 <= x < y < z < i + 1 && !is_space(s@[x]) && is_space(s@[y]) implies is_space(
                s@[z],
            ) by {
                if z < i {
                    assert(s@.take(i as int)[x] == s@[x]);
                    assert(s@.take(i as int)[y] == s@[y]);
                    assert(s@.take(i as int)[z] == s@[z]);
                    assert(!descriptive(s@.take(i as int)));
                }
            }
        }
        if sp && seen_word {
            seen_sep = true;
        }
        if !sp {
            seen_word = true;
        }
        i = i + 1;
        proof {
            assert forall|x: int, y: int, z: int|
                0 <= x < y < z < i && !is_space(s@.take(i as int)[x]) && is_space(
                    s@.take(i as int)[y],
                ) implies is_space(s@.take(i as int)[z]) by {
                assert(s@.take(i as int)[x] == s@[x]);
                assert(s@.take(i as int)[y] == s@[y]);
                assert(s@.take(i as int)[z] == s@[z]);
            }
        }
    }
    proof {
        assert(s@.take(n as int) =~= s@);
    }
    false
}

/// Checks the field-level well-formedness of a Business payload.
///
/// Returns `Ok` exactly when every field passes; otherwise the full list of
/// violation messages, in field order.
pub fn validate_business_payload(payload: &BusinessPayload) -> (r: Result<(), Error>)
    ensures
        match r {
            Ok(_) => business_payload_valid(payload@),
            Err(e) => {
                &&& !business_payload_valid(payload@)
                &&& e matches Error::InvalidPayload { errors } && errors.deep_view()
                    == business_payload_errors(payload@)
            },
        },
{
    let mut errors: Vec<String> = Vec::new();
    if is_blank(payload.name.as_str()) {
        errors.push(business_name_message(payload.name.as_str()));
    }
    if !is_descriptive(payload.description.as_str()) {
        errors.push(description_message(payload.description.as_str()));
    }
    if is_blank(payload.address.as_str()) {
        errors.push(address_message(payload.address.as_str()));
    }
    proof {
        assert(errors.deep_view() =~= business_payload_errors(payload@));
    }
    if errors.len() == 0 {
        Ok(())
    } else {
        Err(Error::InvalidPayload { errors })
    }
}

/// Checks the field-level well-formedness of a Product payload.
///
/// Returns `Ok` exactly when every field passes; otherwise the full list of
/// violation messages, in field order.
pub fn validate_product_payload(payload: &ProductPayload) -> (r: Result<(), Error>)
    ensures
        match r {
            Ok(_) => product_payload_valid(payload@),
            Err(e) => {
                &&& !product_payload_valid(payload@)
                &&& e matches Error::InvalidPayload { errors } && errors.deep_view()
                    == product_payload_errors(payload@)
            },
        },
{
    let mut errors: Vec<String> = Vec::new();
    if is_blank(payload.name.as_str()) {
        errors.push(product_name_message(payload.name.as_str()));
    }
    if !is_descriptive(payload.description.as_str()) {
        errors.push(description_message(payload.description.as_str()));
    }
    if payload.price == 0 {
        errors.push(price_message());
    }
    proof {
        assert(errors.deep_view() =~= product_payload_errors(payload@));
    }
    if errors.len() == 0 {
        Ok(())
    } else {
        Err(Error::InvalidPayload { errors })
    }
}

/// Checks that `caller` is the principal recorded as the Business's owner.
pub fn is_caller_business_owner(business: &Business, caller: &str) -> (r: Result<(), Error>)
    ensures
        match r {
            Ok(_) => business.owner_principal@ == caller@,
            Err(e) => {
                &&& business.owner_principal@ != caller@
                &&& e matches Error::NotBusinessOwner { msg } && msg@ == not_business_owner_msg()
            },
        },
{
    let c: String = caller.to_owned();
    if business.owner_principal.eq(&c) {
        Ok(())
    } else {
        Err(Error::NotBusinessOwner { msg: not_business_owner_message() })
    }
}

/// Checks that `caller` is the principal recorded as the Order's client.
pub fn is_caller_order_client(order: &Order, caller: &str) -> (r: Result<(), Error>)
    ensures
        match r {
            Ok(_) => order.client_principal@ == caller@,
            Err(e) => {
                &&& order.client_principal@ != caller@
                &&& e matches Error::NotOrderClient { msg } && msg@ == not_order_client_msg()
            },
        },
{
    let c: String = caller.to_owned();
    if order.client_principal.eq(&c) {
        Ok(())
    } else {
        Err(Error::NotOrderClient { msg: not_order_client_message() })
    }
}

} // verus!
