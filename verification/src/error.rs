//! Error classification for the gateway, and its translation to the HTTP
//! boundary: a status code and a user-safe message. No error ever carries
//! the client secret or a raw access token.

use vstd::prelude::*;

verus! {

use vstd::string::StringExecFns;

/// Failure of the callback's code-for-token exchange step.
#[derive(Debug)]
pub enum ExchangeError {
    /// The callback's `state` matches no issued, unconsumed state token.
    StateMismatch,
    /// Transport failure, non-2xx provider response, or malformed token
    /// body; carries the provider's diagnostic detail.
    TokenExchangeFailed(String),
}

/// Application-level errors, translated at the boundary into an HTTP status
/// code and a user-safe message.
#[derive(Debug)]
pub enum AppError {
    /// The code-for-token exchange failed; carries the provider's detail.
    OAuth2(String),
    /// The callback's state token failed anti-forgery validation.
    StateMismatch,
    /// Missing or invalid provider configuration; carries the offending key.
    Config(String),
    /// The session store failed; carries detail.
    Session(String),
    /// The caller holds no valid session.
    Unauthorized,
    /// Catch-all for unexpected states.
    InternalServerError,
}

impl AppError {
    /// The HTTP status code this error maps to at the boundary.
    pub open spec fn spec_status_code(self) -> u16 {
        match self {
            AppError::OAuth2(_) => 400,
            AppError::StateMismatch => 400,
            AppError::Config(_) => 500,
            AppError::Session(_) => 500,
            AppError::Unauthorized => 401,
            AppError::InternalServerError => 500,
        }
    }

    pub fn status_code(&self) -> (r: u16)
        ensures
            r == self.spec_status_code(),
    {
        match self {
            AppError::OAuth2(_) => 400,
            AppError::StateMismatch => 400,
            AppError::Config(_) => 500,
            AppError::Session(_) => 500,
            AppError::Unauthorized => 401,
            AppError::InternalServerError => 500,
        }
    }

    /// The user-safe message for the error envelope; never includes the
    /// payload, so no secret material can leak through it.
    pub fn user_message(&self) -> (r: String)
        ensures
            self matches AppError::OAuth2(_) ==> r@ == "OAuth2 authentication failed"@,
            self matches AppError::StateMismatch ==> r@ == "State mismatch"@,
            self matches AppError::Config(_) ==> r@ == "Configuration error"@,
            self matches AppError::Session(_) ==> r@ == "Session error"@,
            self matches AppError::Unauthorized ==> r@ == "Unauthorized"@,
            self matches AppError::InternalServerError ==> r@ == "Internal server error"@,
    {
        match self {
            AppError::OAuth2(_) => String::from_str("OAuth2 authentication failed"),
            AppError::StateMismatch => String::from_str("State mismatch"),
            AppError::Config(_) => String::from_str("Configuration error"),
            AppError::Session(_) => String::from_str("Session error"),
            AppError::Unauthorized => String::from_str("Unauthorized"),
            AppError::InternalServerError => String::from_str("Internal server error"),
        }
    }

    /// The diagnostic detail for the error envelope: the payload where the
    /// error carries one, else the user-safe message.
    pub fn detail(&self) -> (r: String)
        ensures
            self matches AppError::OAuth2(d) ==> r@ == d@,
            self matches AppError::StateMismatch ==> r@ == "State mismatch"@,
            self matches AppError::Config(d) ==> r@ == "Configuration error: "@ + d@,
            self matches AppError::Session(d) ==> r@ == "Session error: "@ + d@,
            self matches AppError::Unauthorized ==> r@ == "Unauthorized"@,
            self matches AppError::InternalServerError ==> r@ == "Internal server error"@,
    {
        match self {
            AppError::OAuth2(d) => d.clone(),
            AppError::StateMismatch => String::from_str("State mismatch"),
            AppError::Config(d) => {
                let mut m = String::from_str("Configuration error: ");
                m.append(d.as_str());
                m
            },
            AppError::Session(d) => {
                let mut m = String::from_str("Session error: ");
                m.append(d.as_str());
                m
            },
            AppError::Unauthorized => String::from_str("Unauthorized"),
            AppError::InternalServerError => String::from_str("Internal server error"),
        }
    }

    /// Translates an exchange failure into its boundary error.
    pub fn from_exchange(e: ExchangeError) -> (r: AppError)
        ensures
            e matches ExchangeError::StateMismatch ==> r matches AppError::StateMismatch,
            e matches ExchangeError::TokenExchangeFailed(d) ==> (r matches AppError::OAuth2(m)
                && m == d),
    {
        match e {
            ExchangeError::StateMismatch => AppError::StateMismatch,
            ExchangeError::TokenExchangeFailed(d) => AppError::OAuth2(d),
        }
    }
}

} // verus!
