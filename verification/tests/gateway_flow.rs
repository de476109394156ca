use auth_gateway::config::Config;
use auth_gateway::config::OAuthClientConfig;
use auth_gateway::error::AppError;
use auth_gateway::exchanger::ProviderOutcome;
use auth_gateway::exchanger::ProviderResponse;
use auth_gateway::exchanger::TokenRequest;
use auth_gateway::gateway::AuthGateway;
use auth_gateway::models::AuthCallbackQuery;

fn test_config() -> Config {
    let vars: Vec<(String, String)> = vec![
        ("GOOGLE_CLIENT_ID".to_string(), "my client".to_string()),
        ("GOOGLE_CLIENT_SECRET".to_string(), "s3cr3t/len".to_string()),
        ("SERVER_HOST".to_string(), "127.0.0.1".to_string()),
        ("SERVER_PORT".to_string(), "3000".to_string()),
        (
            "REDIRECT_URI".to_string(),
            "http://localhost:3000/auth/callback".to_string(),
        ),
    ];
    Config::from_env(&vars).unwrap()
}

fn test_gateway() -> AuthGateway {
    let config = test_config();
    AuthGateway::new(OAuthClientConfig::for_google(&config))
}

/// A stub provider: accepts exactly the code `abc123`.
fn stub_provider(request: &TokenRequest) -> ProviderOutcome {
    if request.body.contains("code=abc123") {
        ProviderOutcome::Response(ProviderResponse {
            status: 200,
            access_token: Some("provider-access-token".to_string()),
            token_type: Some("Bearer".to_string()),
            expires_in: Some(3600),
            detail: String::new(),
        })
    } else {
        ProviderOutcome::Response(ProviderResponse {
            status: 400,
            access_token: None,
            token_type: None,
            expires_in: None,
            detail: "invalid_grant".to_string(),
        })
    }
}

#[test]
fn login_url_carries_client_id_redirect_and_scopes() {
    let mut gw = test_gateway();
    let issued = gw.login(0);
    let url = issued.response.auth_url;
    assert!(url.starts_with("https://accounts.google.com/o/oauth2/auth?response_type=code"));
    assert!(url.contains("client_id=my%20client"));
    assert!(url.contains("redirect_uri=http%3A%2F%2Flocalhost%3A3000%2Fauth%2Fcallback"));
    assert!(url.contains("scope=openid%20email%20profile"));
    assert!(url.contains("&state="));
    assert!(url.ends_with(&issued.state_token));
}

#[test]
fn distinct_logins_issue_distinct_state_tokens() {
    let mut gw = test_gateway();
    let mut tokens: Vec<String> = Vec::new();
    for i in 0..100u64 {
        let issued = gw.login(i);
        tokens.push(issued.state_token);
    }
    for i in 0..tokens.len() {
        for j in 0..tokens.len() {
            if i != j {
                assert_ne!(tokens[i], tokens[j]);
            }
        }
    }
}

#[test]
fn state_tokens_carry_a_fresh_serial_suffix() {
    let mut gw = test_gateway();
    let first = gw.login(0).state_token;
    let second = gw.login(1).state_token;
    assert!(first.len() >= 16);
    assert!(second.len() >= 16);
    assert!(first.ends_with("0000000000000000"));
    assert!(second.ends_with("0000000000000001"));
}

#[test]
fn accepted_callback_establishes_authenticated_session() {
    let mut gw = test_gateway();
    let issued = gw.login(0);
    let query = AuthCallbackQuery {
        code: "abc123".to_string(),
        state: issued.state_token.clone(),
    };
    let request = gw.begin_callback(&query).unwrap();
    assert_eq!(request.endpoint, "https://oauth2.googleapis.com/token");
    assert!(request.body.starts_with("grant_type=authorization_code&code=abc123"));
    assert!(request.body.contains("client_id=my%20client"));
    assert!(request.body.contains("client_secret=s3cr3t%2Flen"));
    let outcome = stub_provider(&request);
    let success = gw.complete_callback(outcome, 1).unwrap();
    assert_eq!(success.response.access_token, "authenticated");
    let granted = gw.check_protected(&success.session_id).unwrap();
    assert_eq!(granted, "Access granted");
}

#[test]
fn state_mismatch_rejects_callback_and_creates_no_session() {
    let mut gw = test_gateway();
    let _issued = gw.login(0);
    let query = AuthCallbackQuery {
        code: "abc123".to_string(),
        state: "forged-state-token".to_string(),
    };
    match gw.begin_callback(&query) {
        Err(AppError::StateMismatch) => {}
        _ => panic!("a forged state must be refused with StateMismatch"),
    }
    let err = gw.check_protected(&"forged-state-token".to_string()).unwrap_err();
    assert_eq!(err.status_code(), 401);
}

#[test]
fn consumed_state_cannot_be_replayed() {
    let mut gw = test_gateway();
    let issued = gw.login(0);
    let query = AuthCallbackQuery {
        code: "abc123".to_string(),
        state: issued.state_token.clone(),
    };
    assert!(gw.begin_callback(&query).is_ok());
    match gw.begin_callback(&query) {
        Err(AppError::StateMismatch) => {}
        _ => panic!("a consumed state token must not validate twice"),
    }
}

#[test]
fn provider_rejection_fails_exchange_and_creates_no_session() {
    let mut gw = test_gateway();
    let issued = gw.login(0);
    let query = AuthCallbackQuery {
        code: "wrong-code".to_string(),
        state: issued.state_token.clone(),
    };
    let request = gw.begin_callback(&query).unwrap();
    let outcome = stub_provider(&request);
    let err = gw.complete_callback(outcome, 1).unwrap_err();
    match &err {
        AppError::OAuth2(detail) => assert_eq!(detail, "invalid_grant"),
        _ => panic!("a non-2xx provider response must fail as OAuth2"),
    }
    assert_eq!(err.status_code(), 400);
    let probe = gw.check_protected(&"anything".to_string());
    assert!(probe.is_err());
}

#[test]
fn transport_failure_fails_exchange() {
    let mut gw = test_gateway();
    let issued = gw.login(0);
    let query = AuthCallbackQuery {
        code: "abc123".to_string(),
        state: issued.state_token.clone(),
    };
    let _request = gw.begin_callback(&query).unwrap();
    let outcome = ProviderOutcome::Transport("connection timed out".to_string());
    let err = gw.complete_callback(outcome, 1).unwrap_err();
    match &err {
        AppError::OAuth2(detail) => assert_eq!(detail, "connection timed out"),
        _ => panic!("a transport failure must fail as OAuth2"),
    }
}

#[test]
fn protected_check_without_session_is_unauthorized() {
    let gw = test_gateway();
    let err = gw.check_protected(&"no-session".to_string()).unwrap_err();
    match &err {
        AppError::Unauthorized => {}
        _ => panic!("a missing session must be Unauthorized"),
    }
    assert_eq!(err.status_code(), 401);
    assert_eq!(err.user_message(), "Unauthorized");
}

#[test]
fn repeated_checks_of_one_session_agree() {
    let mut gw = test_gateway();
    let issued = gw.login(0);
    let query = AuthCallbackQuery {
        code: "abc123".to_string(),
        state: issued.state_token.clone(),
    };
    let request = gw.begin_callback(&query).unwrap();
    let success = gw.complete_callback(stub_provider(&request), 1).unwrap();
    for _ in 0..5 {
        let granted = gw.check_protected(&success.session_id).unwrap();
        assert_eq!(granted, "Access granted");
    }
}

#[test]
fn full_flow_grants_access_with_issued_credential() {
    let mut gw = test_gateway();
    let issued = gw.login(0);
    assert!(issued.response.auth_url.contains("&state="));
    let query = AuthCallbackQuery {
        code: "abc123".to_string(),
        state: issued.state_token.clone(),
    };
    let request = gw.begin_callback(&query).unwrap();
    let success = gw.complete_callback(stub_provider(&request), 1).unwrap();
    assert_eq!(success.response.access_token, "authenticated");
    let granted = gw.check_protected(&success.session_id).unwrap();
    assert_eq!(granted, "Access granted");
}

#[test]
fn rejected_code_yields_oauth2_failure_envelope() {
    let mut gw = test_gateway();
    let issued = gw.login(0);
    let query = AuthCallbackQuery {
        code: "expired".to_string(),
        state: issued.state_token.clone(),
    };
    let request = gw.begin_callback(&query).unwrap();
    let err = gw.complete_callback(stub_provider(&request), 1).unwrap_err();
    assert_eq!(err.status_code(), 400);
    assert_eq!(err.user_message(), "OAuth2 authentication failed");
}
