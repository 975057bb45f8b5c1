//! The verified core of the warehouse client: the REST endpoints it talks
//! to, the shopping cart, the product-change stream, the image cache, and the
//! small text rules of the product screens. Network, database, file and
//! screen work is done by the caller with the values these functions give.
use vstd::prelude::*;

pub mod api;
pub mod auth;
pub mod cart;
pub mod catalog;
pub mod config;
pub mod db;
pub mod images;
pub mod models;
pub mod seqs;
pub mod sync;
pub mod text;
pub mod variation_rows;

verus! {

/// `None` for the empty string, otherwise the string itself (an optional
/// form field).
pub fn opt_str(s: &str) -> (r: Option<String>)
    ensures
        r is None <==> s@.len() == 0,
        r matches Some(t) ==> t@ == s@,
{
    if s.unicode_len() == 0 {
        None
    } else {
        Some(s.to_owned())
    }
}

} // verus!
