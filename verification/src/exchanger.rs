//! The callback exchanger: builds the code-for-token request for the
//! provider's token endpoint, and classifies what came back. The network
//! round trip itself happens at the boundary; classification is over plain
//! values and holds for every possible outcome.

use vstd::prelude::*;

verus! {

use crate::config::OAuthClientConfig;
use crate::encoding::chars_of;
use crate::encoding::pct_encode;
use crate::encoding::pct_encoded;
use crate::error::ExchangeError;
use vstd::string::StringExecFns;
use vstd::utf8::encode_utf8;

/// A successful token exchange: the provider's access token, its type, and
/// the optional lifetime in seconds.
#[derive(Debug)]
pub struct TokenResponse {
    pub access_token: String,
    pub token_type: String,
    pub expires_in: Option<u64>,
}

/// An HTTP response from the token endpoint, reduced to plain values: the
/// status code, the token fields of the body where the body held them, and
/// the provider's diagnostic detail.
#[derive(Debug)]
pub struct ProviderResponse {
    pub status: u16,
    pub access_token: Option<String>,
    pub token_type: Option<String>,
    pub expires_in: Option<u64>,
    pub detail: String,
}

/// What became of the single network round trip to the token endpoint.
#[derive(Debug)]
pub enum ProviderOutcome {
    /// An HTTP response arrived.
    Response(ProviderResponse),
    /// The request never completed; carries the transport diagnostic.
    Transport(String),
}

/// The outcome counts as a successful exchange: a 2xx response whose body
/// held an access token and a token type.
pub open spec fn outcome_accepted(o: ProviderOutcome) -> bool {
    match o {
        ProviderOutcome::Response(p) => 200 <= p.status < 300 && p.access_token is Some
            && p.token_type is Some,
        ProviderOutcome::Transport(_) => false,
    }
}

/// Classifies the outcome of the exchange: the parsed token response for an
/// accepted outcome, `TokenExchangeFailed` with the provider's diagnostic
/// detail for every other.
pub fn classify_token_outcome(o: ProviderOutcome) -> (r: Result<TokenResponse, ExchangeError>)
    ensures
        r is Ok <==> outcome_accepted(o),
        r matches Ok(t) ==> (o matches ProviderOutcome::Response(p) && p.access_token == Some(
            t.access_token,
        ) && p.token_type == Some(t.token_type) && p.expires_in == t.expires_in),
        r matches Err(e) ==> match o {
            ProviderOutcome::Response(p) => e matches ExchangeError::TokenExchangeFailed(d)
                && d == p.detail,
            ProviderOutcome::Transport(d0) => e matches ExchangeError::TokenExchangeFailed(d)
                && d == d0,
        },
{
    match o {
        ProviderOutcome::Response(p) => {
            if 200 <= p.status && p.status < 300 {
                match (p.access_token, p.token_type) {
                    (Some(access_token), Some(token_type)) => Ok(
                        TokenResponse { access_token, token_type, expires_in: p.expires_in },
                    ),
                    _ => Err(ExchangeError::TokenExchangeFailed(p.detail)),
                }
            } else {
                Err(ExchangeError::TokenExchangeFailed(p.detail))
            }
        },
        ProviderOutcome::Transport(d) => Err(ExchangeError::TokenExchangeFailed(d)),
    }
}

/// The code-for-token request for the provider's token endpoint: where to
/// send it, and the form-encoded body of the Authorization Code grant.
#[derive(Debug)]
pub struct TokenRequest {
    pub endpoint: String,
    pub body: String,
}

/// The form-encoded body: grant type, authorization code, client id, client
/// secret and redirect URI, each value percent-encoded.
pub open spec fn token_request_body_chars(cfg: OAuthClientConfig, code: Seq<char>) -> Seq<char> {
    "grant_type=authorization_code&code="@ + chars_of(pct_encoded(encode_utf8(code)))
        + "&client_id="@ + chars_of(pct_encoded(encode_utf8(cfg.client_id@))) + "&client_secret="@
        + chars_of(pct_encoded(encode_utf8(cfg.client_secret@))) + "&redirect_uri="@ + chars_of(
        pct_encoded(encode_utf8(cfg.redirect_uri@)),
    )
}

/// Builds the single token-endpoint request for an authorization code.
pub fn build_token_request(cfg: &OAuthClientConfig, code: &String) -> (r: TokenRequest)
    ensures
        r.endpoint@ == cfg.token_endpoint@,
        r.body@ == token_request_body_chars(*cfg, code@),
{
    let mut body = String::from_str("grant_type=authorization_code&code=");
    let enc_code = pct_encode(code.as_str());
    body.append(enc_code.as_str());
    body.append("&client_id=");
    let enc_client = pct_encode(cfg.client_id.as_str());
    body.append(enc_client.as_str());
    body.append("&client_secret=");
    let enc_secret = pct_encode(cfg.client_secret.as_str());
    body.append(enc_secret.as_str());
    body.append("&redirect_uri=");
    let enc_redirect = pct_encode(cfg.redirect_uri.as_str());
    body.append(enc_redirect.as_str());
    TokenRequest { endpoint: cfg.token_endpoint.clone(), body }
}

} // verus!
