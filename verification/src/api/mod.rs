//! The server's REST endpoints: their URLs and how a reply's status is
//! judged. Sending the requests and decoding the JSON replies is left to the
//! caller.
use vstd::prelude::*;

use crate::text::{decimal_text, push_decimal, push_str};

pub mod orders;
pub mod products;
pub mod templates;
pub mod users;

verus! {

/// Whether an HTTP status code is a success (2xx), as `http`'s
/// `StatusCode::is_success` decides.
pub fn is_success(status: u16) -> (r: bool)
    ensures
        r == (200 <= status < 300),
{
    200 <= status && status < 300
}

/// The error text for a refused request: `"{action} failed {status}: {body}"`.
pub fn failure_message(action: &str, status: &str, body: &str) -> (r: String)
    ensures
        r@ == action@ + " failed "@ + status@ + ": "@ + body@,
{
    let mut r = String::new();
    push_str(&mut r, action);
    push_str(&mut r, " failed ");
    push_str(&mut r, status);
    push_str(&mut r, ": ");
    push_str(&mut r, body);
    assert(r@ =~= action@ + " failed "@ + status@ + ": "@ + body@);
    r
}

/// The outcome of a request that returns no data: success for a 2xx status,
/// otherwise the error text of `failure_message`.
pub fn check_status(action: &str, status: u16, status_text: &str, body: &str) -> (r: Result<
    (),
    String,
>)
    ensures
        r is Ok <==> 200 <= status < 300,
        r matches Err(m) ==> m@ == action@ + " failed "@ + status_text@ + ": "@ + body@,
{
    if is_success(status) {
        Ok(())
    } else {
        Err(failure_message(action, status_text, body))
    }
}

/// `base` followed by `path`.
pub fn endpoint(base: &str, path: &str) -> (r: String)
    ensures
        r@ == base@ + path@,
{
    let mut r = String::new();
    push_str(&mut r, base);
    push_str(&mut r, path);
    r
}

/// `base`, then `path`, then the decimal text of `id`, then `tail`.
pub fn endpoint_with_id(base: &str, path: &str, id: i64, tail: &str) -> (r: String)
    ensures
        r@ == base@ + path@ + decimal_text(id as int) + tail@,
{
    let mut r = String::new();
    push_str(&mut r, base);
    push_str(&mut r, path);
    push_decimal(&mut r, id);
    push_str(&mut r, tail);
    r
}

} // verus!
