//! User administration endpoints.
use vstd::prelude::*;

use crate::api::{endpoint, endpoint_with_id};
use crate::text::decimal_text;

verus! {

/// A user as the server lists it.
pub struct UserData {
    pub id: i64,
    pub name: String,
    pub email: String,
    pub is_active: bool,
    pub is_superuser: bool,
}

/// The body of a user creation.
pub struct CreateUser {
    pub name: String,
    pub email: String,
    pub password: String,
    pub is_active: bool,
    pub is_superuser: bool,
}

/// The body of a user update.
pub struct UpdateUser {
    pub name: String,
    pub email: String,
    pub is_active: bool,
    pub is_superuser: bool,
}

/// The URL of the user collection: `{base_url}/user/`.
pub fn users_url(base_url: &str) -> (r: String)
    ensures
        r@ == base_url@ + "/user/"@,
{
    endpoint(base_url, "/user/")
}

/// The URL of one user: `{base_url}/user/{id}/`.
pub fn user_url(base_url: &str, id: i64) -> (r: String)
    ensures
        r@ == base_url@ + "/user/"@ + decimal_text(id as int) + "/"@,
{
    endpoint_with_id(base_url, "/user/", id, "/")
}

} // verus!
