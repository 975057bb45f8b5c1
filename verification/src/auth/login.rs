//! Logging in: which server to ask, and the token endpoints.
use vstd::prelude::*;

use crate::api::endpoint;
use crate::models::user::LoginResponse;
use crate::text::{strip_end, trim_end_char};

verus! {

/// The server a login goes to: the configured one when the login form
/// leaves the server field empty, otherwise the form's URL without trailing
/// slashes.
pub open spec fn login_server(server_url: Seq<char>, configured: Seq<char>) -> Seq<char> {
    if server_url.len() == 0 {
        configured
    } else {
        strip_end(server_url, '/')
    }
}

/// The base URL a login from the form goes to.
pub fn login_base_url(server_url: &str, configured: &str) -> (r: String)
    ensures
        r@ == login_server(server_url@, configured@),
{
    if server_url.unicode_len() == 0 {
        configured.to_owned()
    } else {
        trim_end_char(server_url, '/')
    }
}

/// The URL credentials are exchanged for a token at: `{base_url}/user/token`.
pub fn token_url(base_url: &str) -> (r: String)
    ensures
        r@ == base_url@ + "/user/token"@,
{
    endpoint(base_url, "/user/token")
}

/// The URL a stored token is checked at: `{base_url}/user/me`.
pub fn me_url(base_url: &str) -> (r: String)
    ensures
        r@ == base_url@ + "/user/me"@,
{
    endpoint(base_url, "/user/me")
}

/// The token of a login reply; the login is accepted exactly when there is
/// one.
pub fn accepted_token(reply: &LoginResponse) -> (r: Option<String>)
    ensures
        r == reply.access_token,
{
    match &reply.access_token {
        Some(t) => Some(t.clone()),
        None => None,
    }
}

/// What checking a stored token at start-up found.
pub enum TokenCheck {
    /// The server accepted the token, possibly handing out a fresh one.
    Accepted(Option<String>),
    /// The server could not be reached (no connection, or a time-out).
    Unreachable,
    /// The server refused the token, or answered something else.
    Refused,
}

/// How the session continues after the start-up token check.
pub enum SessionStart {
    /// Signed in with this token, synchronising with the server.
    Online(String),
    /// Signed in with the stored token, working from the local data.
    Offline(String),
    /// Signed out: the stored token is dropped and the user must log in.
    SignedOut,
}

/// The session after the start-up check of `stored_token`: a fresh token
/// replaces the stored one; an unreachable server keeps the user signed in
/// offline; a refused token signs the user out.
pub fn session_after_check(stored_token: String, check: TokenCheck) -> (r: SessionStart)
    ensures
        match check {
            TokenCheck::Accepted(Some(fresh)) => r == SessionStart::Online(fresh),
            TokenCheck::Accepted(None) => r == SessionStart::Online(stored_token),
            TokenCheck::Unreachable => r == SessionStart::Offline(stored_token),
            TokenCheck::Refused => r == SessionStart::SignedOut,
        },
{
    match check {
        TokenCheck::Accepted(Some(fresh)) => SessionStart::Online(fresh),
        TokenCheck::Accepted(None) => SessionStart::Online(stored_token),
        TokenCheck::Unreachable => SessionStart::Offline(stored_token),
        TokenCheck::Refused => SessionStart::SignedOut,
    }
}

/// Law: the base URL of a login from a filled-in server field never ends
/// with `'/'`, and logging in again from that URL keeps it.
pub proof fn law_login_server_has_no_trailing_slash(server_url: Seq<char>, configured: Seq<char>)
    requires
        server_url.len() > 0,
    ensures
        login_server(server_url, configured).len() > 0 ==> login_server(
            server_url,
            configured,
        ).last() != '/',
        login_server(server_url, configured).len() > 0 ==> login_server(
            login_server(server_url, configured),
            configured,
        ) == login_server(server_url, configured),
{
    lemma_strip_end(server_url, '/');
    let t = strip_end(server_url, '/');
    if t.len() > 0 {
        lemma_strip_end(t, '/');
    }
}

proof fn lemma_strip_end(s: Seq<char>, c: char)
    ensures
        strip_end(s, c).len() > 0 ==> strip_end(s, c).last() != c,
        strip_end(s, c).len() > 0 ==> strip_end(strip_end(s, c), c) == strip_end(s, c),
    decreases s.len(),
{
    if s.len() > 0 && s.last() == c {
        lemma_strip_end(s.drop_last(), c);
    }
}

} // verus!
