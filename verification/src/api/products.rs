//! Product and variation endpoints.
use vstd::prelude::*;

use crate::api::{endpoint, endpoint_with_id};
use crate::text::{decimal_text, push_decimal, push_str};

verus! {

/// The URL of the product collection: `{base_url}/product/`.
pub fn products_url(base_url: &str) -> (r: String)
    ensures
        r@ == base_url@ + "/product/"@,
{
    endpoint(base_url, "/product/")
}

/// The URL a product is fetched from: `{base_url}/product/{id}`.
pub fn product_url(base_url: &str, id: i64) -> (r: String)
    ensures
        r@ == base_url@ + "/product/"@ + decimal_text(id as int) + ""@,
{
    endpoint_with_id(base_url, "/product/", id, "")
}

/// The URL a product is deleted at: `{base_url}/product/{id}/`.
pub fn product_item_url(base_url: &str, id: i64) -> (r: String)
    ensures
        r@ == base_url@ + "/product/"@ + decimal_text(id as int) + "/"@,
{
    endpoint_with_id(base_url, "/product/", id, "/")
}

/// The URL variations are added at:
/// `{base_url}/product/{product_id}/variation/`.
pub fn variations_url(base_url: &str, product_id: i64) -> (r: String)
    ensures
        r@ == base_url@ + "/product/"@ + decimal_text(product_id as int) + "/variation/"@,
{
    endpoint_with_id(base_url, "/product/", product_id, "/variation/")
}

/// The URL of one variation:
/// `{base_url}/product/{product_id}/variation/{variation_id}/`.
pub fn variation_url(base_url: &str, product_id: i64, variation_id: i64) -> (r: String)
    ensures
        r@ == base_url@ + "/product/"@ + decimal_text(product_id as int) + "/variation/"@
            + decimal_text(variation_id as int) + "/"@,
{
    let mut r = variations_url(base_url, product_id);
    push_decimal(&mut r, variation_id);
    push_str(&mut r, "/");
    r
}

} // verus!
