//! Products as the change stream sends them.
use vstd::prelude::*;

verus! {

/// A product of the live product list.
pub struct ProductData {
    pub title: String,
    pub description: String,
    pub category: String,
    pub price: String,
}

} // verus!
