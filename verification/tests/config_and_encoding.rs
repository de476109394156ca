use auth_gateway::base_url::get_base_url;
use auth_gateway::base_url::get_base_url_with_proxy;
use auth_gateway::config::parse_port;
use auth_gateway::config::Config;
use auth_gateway::encoding::pct_encode;
use auth_gateway::encoding::render_hex;
use auth_gateway::error::AppError;

fn full_vars() -> Vec<(String, String)> {
    vec![
        ("GOOGLE_CLIENT_ID".to_string(), "id-1".to_string()),
        ("GOOGLE_CLIENT_SECRET".to_string(), "sec-1".to_string()),
        ("SERVER_HOST".to_string(), "0.0.0.0".to_string()),
        ("SERVER_PORT".to_string(), "8080".to_string()),
        ("REDIRECT_URI".to_string(), "http://localhost:8080/auth/callback".to_string()),
    ]
}

#[test]
fn from_env_reads_all_settings() {
    let c = Config::from_env(&full_vars()).unwrap();
    assert_eq!(c.google_client_id, "id-1");
    assert_eq!(c.google_client_secret, "sec-1");
    assert_eq!(c.server_host, "0.0.0.0");
    assert_eq!(c.server_port, 8080);
    assert_eq!(c.redirect_uri, "http://localhost:8080/auth/callback");
}

#[test]
fn from_env_names_the_missing_setting() {
    let vars: Vec<(String, String)> = full_vars()
        .into_iter()
        .filter(|(k, _)| k != "GOOGLE_CLIENT_SECRET")
        .collect();
    let err = Config::from_env(&vars).unwrap_err();
    match &err {
        AppError::Config(key) => assert_eq!(key, "GOOGLE_CLIENT_SECRET"),
        _ => panic!("a missing setting must be a configuration error"),
    }
    assert_eq!(err.status_code(), 500);
    assert_eq!(err.user_message(), "Configuration error");
    assert_eq!(err.detail(), "Configuration error: GOOGLE_CLIENT_SECRET");
}

#[test]
fn from_env_rejects_a_malformed_port() {
    for bad in ["", "12ab", "65536", "-1", "70000"] {
        let mut vars = full_vars();
        for pair in vars.iter_mut() {
            if pair.0 == "SERVER_PORT" {
                pair.1 = bad.to_string();
            }
        }
        let err = Config::from_env(&vars).unwrap_err();
        match &err {
            AppError::Config(key) => assert_eq!(key, "SERVER_PORT"),
            _ => panic!("a malformed port must be a configuration error"),
        }
    }
}

#[test]
fn parse_port_accepts_the_sixteen_bit_range() {
    assert_eq!(parse_port(&"0".to_string()), Some(0));
    assert_eq!(parse_port(&"3000".to_string()), Some(3000));
    assert_eq!(parse_port(&"65535".to_string()), Some(65535));
    assert_eq!(parse_port(&"000080".to_string()), Some(80));
    assert_eq!(parse_port(&"65536".to_string()), None);
    assert_eq!(parse_port(&"".to_string()), None);
    assert_eq!(parse_port(&"80a".to_string()), None);
}

#[test]
fn default_settings_are_the_development_placeholders() {
    let c = Config::default();
    assert_eq!(c.google_client_id, "your_google_client_id_here");
    assert_eq!(c.google_client_secret, "your_google_client_secret_here");
    assert_eq!(c.server_host, "0.0.0.0");
    assert_eq!(c.server_port, 3000);
    assert_eq!(c.redirect_uri, "http://localhost:3000/auth/callback");
}

#[test]
fn pct_encode_keeps_unreserved_and_escapes_the_rest() {
    assert_eq!(pct_encode("openid email profile"), "openid%20email%20profile");
    assert_eq!(pct_encode("AZaz09-._~"), "AZaz09-._~");
    assert_eq!(pct_encode("http://h:1/p?q#f"), "http%3A%2F%2Fh%3A1%2Fp%3Fq%23f");
    assert_eq!(pct_encode(""), "");
    assert_eq!(pct_encode("\u{3c0}"), "%CF%80");
}

#[test]
fn render_hex_writes_fixed_width_uppercase_digits() {
    assert_eq!(render_hex(0, 16), b"0000000000000000".to_vec());
    assert_eq!(render_hex(255, 16), b"00000000000000FF".to_vec());
    assert_eq!(render_hex(0xDEADBEEF, 16), b"00000000DEADBEEF".to_vec());
    assert_eq!(render_hex(u64::MAX, 16), b"FFFFFFFFFFFFFFFF".to_vec());
}

#[test]
fn error_translation_matches_the_boundary_table() {
    let cases: Vec<(AppError, u16, &str)> = vec![
        (AppError::OAuth2("d".to_string()), 400, "OAuth2 authentication failed"),
        (AppError::StateMismatch, 400, "State mismatch"),
        (AppError::Config("k".to_string()), 500, "Configuration error"),
        (AppError::Session("d".to_string()), 500, "Session error"),
        (AppError::Unauthorized, 401, "Unauthorized"),
        (AppError::InternalServerError, 500, "Internal server error"),
    ];
    for (e, status, message) in cases {
        assert_eq!(e.status_code(), status);
        assert_eq!(e.user_message(), message);
    }
}

#[test]
fn base_url_follows_scheme_and_proxy_header() {
    assert_eq!(get_base_url(false, &"example.com".to_string()), "http://example.com");
    assert_eq!(get_base_url(true, &"example.com".to_string()), "https://example.com");
    assert_eq!(
        get_base_url_with_proxy(&Some("https".to_string()), false, &"example.com".to_string()),
        "https://example.com"
    );
    assert_eq!(
        get_base_url_with_proxy(&None, false, &"example.com:8080".to_string()),
        "http://example.com:8080"
    );
}
