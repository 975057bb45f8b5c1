//! The application's configuration file.
use vstd::prelude::*;

verus! {

/// What the configuration file holds: the server's base URL.
pub struct Config {
    pub base_url: String,
}

} // verus!
