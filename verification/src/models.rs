//! Plain data carried across the HTTP boundary.

use vstd::prelude::*;

verus! {

/// Query parameters the identity provider sends back to the callback
/// endpoint: the authorization code and the echoed anti-forgery state.
#[derive(Debug)]
pub struct AuthCallbackQuery {
    pub code: String,
    pub state: String,
}

/// Body of a successful callback response.
#[derive(Debug)]
pub struct AuthResponse {
    pub access_token: String,
}

/// Body of a successful login response: the provider authorization URL the
/// caller should be redirected to.
#[derive(Debug)]
pub struct AuthUrlResponse {
    pub auth_url: String,
}

} // verus!
