//! An OAuth2 Authorization Code Grant gateway: issues authorization redirect
//! URLs bound to fresh anti-forgery state tokens, classifies the outcome of a
//! code-for-token exchange with the identity provider, and gates access to a
//! protected resource by a session that holds a valid token.

pub mod base_url;
pub mod config;
pub mod encoding;
pub mod error;
pub mod exchanger;
pub mod gate;
pub mod gateway;
pub mod issuer;
pub mod models;
pub mod token;
