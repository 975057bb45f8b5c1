//! Catalog template endpoints.
use vstd::prelude::*;

use crate::api::endpoint;

verus! {

/// A catalog template.
pub struct TemplateData {
    pub id: i64,
    pub name: String,
}

/// The URL of the template collection: `{base_url}/template`.
pub fn templates_url(base_url: &str) -> (r: String)
    ensures
        r@ == base_url@ + "/template"@,
{
    endpoint(base_url, "/template")
}

} // verus!
