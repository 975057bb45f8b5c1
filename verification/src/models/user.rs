//! The login exchange.
use vstd::prelude::*;

verus! {

/// The credentials sent to the token endpoint.
pub struct LoginPayload {
    pub username: String,
    pub password: String,
}

/// The token endpoint's reply: a token when the credentials were accepted,
/// and a message otherwise.
pub struct LoginResponse {
    pub access_token: Option<String>,
    pub message: Option<String>,
}

impl LoginPayload {
    /// The payload carrying `username` and `password`.
    pub fn new(username: &str, password: &str) -> (r: LoginPayload)
        ensures
            r.username@ == username@,
            r.password@ == password@,
    {
        LoginPayload { username: username.to_owned(), password: password.to_owned() }
    }
}

} // verus!
