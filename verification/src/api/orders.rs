//! Order endpoints.
use vstd::prelude::*;

use crate::api::{endpoint, endpoint_with_id};
use crate::text::decimal_text;

verus! {

/// The URL of the order collection: `{base_url}/order/`.
pub fn orders_url(base_url: &str) -> (r: String)
    ensures
        r@ == base_url@ + "/order/"@,
{
    endpoint(base_url, "/order/")
}

/// The URL of one order: `{base_url}/order/{id}`.
pub fn order_url(base_url: &str, id: i64) -> (r: String)
    ensures
        r@ == base_url@ + "/order/"@ + decimal_text(id as int) + ""@,
{
    endpoint_with_id(base_url, "/order/", id, "")
}


/// A variation as an order's item embeds it (its price stays with the
/// caller).
pub struct EmbeddedVariation {
    pub dimensions: Option<String>,
    pub packaging: Option<String>,
    pub standard: Option<String>,
}

/// A variation as stored locally, with the name of its product (its price
/// stays with the caller).
pub struct StoredVariation {
    pub product_name: String,
    pub dimensions: Option<String>,
    pub packaging: Option<String>,
    pub standard: Option<String>,
}

/// Which price an order item shows.
pub enum PriceSource {
    /// The price of the variation embedded in the order.
    Embedded,
    /// The price of the locally stored variation.
    Stored,
    /// No price is known: zero.
    Unknown,
}

/// What an order item shows.
pub struct ItemDetails {
    pub product_name: String,
    pub dimensions: String,
    pub packaging: String,
    pub standard: String,
    pub price_from: PriceSource,
}

/// The text of an optional field, empty when absent.
pub open spec fn or_empty(v: Option<String>) -> Seq<char> {
    match v {
        Some(s) => s@,
        None => Seq::empty(),
    }
}

fn text_or_empty(v: &Option<String>) -> (r: String)
    ensures
        r@ == or_empty(*v),
{
    match v {
        Some(s) => s.clone(),
        None => String::new(),
    }
}

/// What an order item shows: the product name always comes from the local
/// store (empty when the variation is not stored there); the other details
/// and the price come from the variation embedded in the order when there is
/// one, otherwise from the local store, otherwise they are empty and zero.
pub fn item_details(embedded: &Option<EmbeddedVariation>, stored: &Option<StoredVariation>) -> (r:
    ItemDetails)
    ensures
        r.product_name@ == match stored {
            Some(s) => s.product_name@,
            None => Seq::empty(),
        },
        match embedded {
            Some(e) => {
                &&& r.dimensions@ == or_empty(e.dimensions)
                &&& r.packaging@ == or_empty(e.packaging)
                &&& r.standard@ == or_empty(e.standard)
                &&& r.price_from is Embedded
            },
            None => match stored {
                Some(s) => {
                    &&& r.dimensions@ == or_empty(s.dimensions)
                    &&& r.packaging@ == or_empty(s.packaging)
                    &&& r.standard@ == or_empty(s.standard)
                    &&& r.price_from is Stored
                },
                None => {
                    &&& r.dimensions@.len() == 0
                    &&& r.packaging@.len() == 0
                    &&& r.standard@.len() == 0
                    &&& r.price_from is Unknown
                },
            },
        },
{
    let product_name = match stored {
        Some(s) => s.product_name.clone(),
        None => String::new(),
    };
    match embedded {
        Some(e) => ItemDetails {
            product_name,
            dimensions: text_or_empty(&e.dimensions),
            packaging: text_or_empty(&e.packaging),
            standard: text_or_empty(&e.standard),
            price_from: PriceSource::Embedded,
        },
        None => match stored {
            Some(s) => ItemDetails {
                product_name,
                dimensions: text_or_empty(&s.dimensions),
                packaging: text_or_empty(&s.packaging),
                standard: text_or_empty(&s.standard),
                price_from: PriceSource::Stored,
            },
            None => ItemDetails {
                product_name,
                dimensions: String::new(),
                packaging: String::new(),
                standard: String::new(),
                price_from: PriceSource::Unknown,
            },
        },
    }
}

} // verus!
