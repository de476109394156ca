//! The composition root of the core: wires the authorization request
//! issuer, the callback exchanger and the session gate into the three
//! operations the boundary exposes — login, callback and protected-check.

use vstd::prelude::*;

verus! {

use crate::config::OAuthClientConfig;
use crate::error::AppError;
use crate::exchanger::ProviderOutcome;
use crate::exchanger::TokenRequest;
use crate::exchanger::build_token_request;
use crate::exchanger::classify_token_outcome;
use crate::exchanger::outcome_accepted;
use crate::exchanger::token_request_body_chars;
use crate::gate::AuthStatus;
use crate::gate::SessionGate;
use crate::issuer::PendingStore;
use crate::issuer::auth_url_chars;
use crate::issuer::build_authorization_url;
use crate::models::AuthCallbackQuery;
use crate::models::AuthResponse;
use crate::models::AuthUrlResponse;
use vstd::string::StringExecFns;

/// What a login call hands back: the redirect response for the caller, and
/// the state token bound to this attempt.
#[derive(Debug)]
pub struct IssuedLogin {
    pub response: AuthUrlResponse,
    pub state_token: String,
}

/// What a completed callback hands back: the response body for the caller,
/// and the fresh session credential to deliver alongside it.
#[derive(Debug)]
pub struct CallbackSuccess {
    pub response: AuthResponse,
    pub session_id: String,
}

/// The provider's diagnostic detail carried by a failed outcome.
pub open spec fn outcome_detail(o: ProviderOutcome) -> Seq<char> {
    match o {
        ProviderOutcome::Response(p) => p.detail@,
        ProviderOutcome::Transport(d) => d@,
    }
}

/// The authorization gateway: immutable provider configuration, the pending
/// anti-forgery state tokens, and the session store.
pub struct AuthGateway {
    pub config: OAuthClientConfig,
    pub pending: PendingStore,
    pub gate: SessionGate,
}

impl AuthGateway {
    pub open spec fn wf(self) -> bool {
        &&& self.config.wf()
        &&& self.pending.wf()
        &&& self.gate.wf()
    }

    /// A gateway with no pending login attempt and no session.
    pub fn new(config: OAuthClientConfig) -> (g: AuthGateway)
        requires
            config.wf(),
        ensures
            g.wf(),
            g.config == config,
            g.pending.can_issue(),
            g.gate.can_establish(),
            g.pending.issued() == Set::<Seq<char>>::empty(),
            forall|t: Seq<char>| !(#[trigger] g.pending.has_pending(t)),
            forall|t: Seq<char>| !(#[trigger] g.gate.has_session(t)),
    {
        AuthGateway { config, pending: PendingStore::new(), gate: SessionGate::new() }
    }

    /// The login operation: issues a fresh anti-forgery state token, keeps
    /// it for the callback, and builds the provider authorization URL bound
    /// to it.
    pub fn login(&mut self, now: u64) -> (r: IssuedLogin)
        requires
            old(self).wf(),
            old(self).pending.can_issue(),
        ensures
            final(self).wf(),
            final(self).config == old(self).config,
            final(self).gate == old(self).gate,
            r.response.auth_url@ == auth_url_chars(old(self).config, r.state_token@),
            !old(self).pending.issued().contains(r.state_token@),
            final(self).pending.issued() == old(self).pending.issued().insert(r.state_token@),
            final(self).pending.has_pending(r.state_token@),
            forall|x: Seq<char>|
                x != r.state_token@ ==> #[trigger] final(self).pending.has_pending(x) == old(
                    self,
                ).pending.has_pending(x),
    {
        let state_token = self.pending.issue(now);
        let auth_url = build_authorization_url(&self.config, &state_token);
        IssuedLogin { response: AuthUrlResponse { auth_url }, state_token }
    }

    /// First half of the callback operation, before any network contact:
    /// validates the echoed `state` against an issued, unconsumed state
    /// token, consumes it (single use), and builds the token-endpoint
    /// request. Fails with `StateMismatch`, touching nothing, exactly when
    /// no such token is pending.
    pub fn begin_callback(&mut self, query: &AuthCallbackQuery) -> (r: Result<
        TokenRequest,
        AppError,
    >)
        requires
            old(self).wf(),
            query.code@.len() > 0,
        ensures
            final(self).wf(),
            final(self).config == old(self).config,
            final(self).gate == old(self).gate,
            final(self).pending.issued() == old(self).pending.issued(),
            final(self).pending.can_issue() == old(self).pending.can_issue(),
            r is Ok <==> old(self).pending.has_pending(query.state@),
            r matches Ok(t) ==> {
                &&& t.endpoint@ == old(self).config.token_endpoint@
                &&& t.body@ == token_request_body_chars(old(self).config, query.code@)
                &&& !final(self).pending.has_pending(query.state@)
                &&& forall|x: Seq<char>|
                    x != query.state@ ==> #[trigger] final(self).pending.has_pending(x) == old(
                        self,
                    ).pending.has_pending(x)
            },
            r is Err ==> *final(self) == *old(self),
            r matches Err(e) ==> e matches AppError::StateMismatch,
    {
        match self.pending.take(&query.state) {
            Some(_request) => Ok(build_token_request(&self.config, &query.code)),
            None => Err(AppError::StateMismatch),
        }
    }

    /// Second half of the callback operation: classifies what came back
    /// from the token endpoint. An accepted outcome binds the access token
    /// to a fresh session; every other outcome fails with the provider's
    /// diagnostic detail and creates no session.
    pub fn complete_callback(&mut self, outcome: ProviderOutcome, now: u64) -> (r: Result<
        CallbackSuccess,
        AppError,
    >)
        requires
            old(self).wf(),
            old(self).gate.can_establish(),
        ensures
            final(self).wf(),
            final(self).config == old(self).config,
            final(self).pending == old(self).pending,
            r is Ok <==> outcome_accepted(outcome),
            r matches Ok(s) ==> {
                &&& s.response.access_token@ == "authenticated"@
                &&& !old(self).gate.issued().contains(s.session_id@)
                &&& final(self).gate.issued() == old(self).gate.issued().insert(s.session_id@)
                &&& final(self).gate.has_session(s.session_id@)
                &&& (outcome matches ProviderOutcome::Response(p) && p.access_token matches Some(
                    a,
                ) ==> final(self).gate.access_token_of(s.session_id@) == a@)
                &&& forall|x: Seq<char>|
                    x != s.session_id@ ==> #[trigger] final(self).gate.has_session(x) == old(
                        self,
                    ).gate.has_session(x)
                &&& final(self).gate.session_count() == old(self).gate.session_count() + 1
            },
            r is Err ==> *final(self) == *old(self),
            r matches Err(e) ==> (e matches AppError::OAuth2(d) && d@ == outcome_detail(outcome)),
    {
        match classify_token_outcome(outcome) {
            Ok(token) => {
                let session_id = self.gate.establish(token.access_token, now);
                Ok(
                    CallbackSuccess {
                        response: AuthResponse {
                            access_token: String::from_str("authenticated"),
                        },
                        session_id,
                    },
                )
            },
            Err(e) => Err(AppError::from_exchange(e)),
        }
    }

    /// The protected-resource check: `Ok` with the granted message exactly
    /// when the presented credential names a live session. Read-only.
    pub fn check_protected(&self, session_id: &String) -> (r: Result<String, AppError>)
        ensures
            r is Ok <==> self.gate.has_session(session_id@),
            r matches Ok(m) ==> m@ == "Access granted"@,
            r matches Err(e) ==> e matches AppError::Unauthorized,
    {
        match self.gate.check(session_id) {
            AuthStatus::Authenticated => Ok(String::from_str("Access granted")),
            AuthStatus::Unauthenticated => Err(AppError::Unauthorized),
        }
    }
}

/// Law: an accepted exchange yields a session credential that the session
/// store then reports as authenticated.
pub proof fn law_accepted_exchange_authenticates(
    g: AuthGateway,
    s: CallbackSuccess,
    r: AuthStatus,
)
    requires
        g.gate.has_session(s.session_id@),
        r == AuthStatus::Authenticated <==> g.gate.has_session(s.session_id@),
    ensures
        r == AuthStatus::Authenticated,
{
}

/// Law: with no prior session, the protected check refuses, and the refusal
/// maps to status 401.
pub proof fn law_no_session_is_unauthorized(
    g: AuthGateway,
    sid: Seq<char>,
    r: Result<String, AppError>,
)
    requires
        forall|t: Seq<char>| !(#[trigger] g.gate.has_session(t)),
        r is Ok <==> g.gate.has_session(sid),
        r matches Err(e) ==> e matches AppError::Unauthorized,
    ensures
        r is Err,
        r matches Err(e) ==> e.spec_status_code() == 401,
{
}

} // verus!
