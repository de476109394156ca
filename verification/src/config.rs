//! Process configuration, read once at startup from plain key-value pairs,
//! and the immutable provider configuration derived from it.

use vstd::prelude::*;

verus! {

use crate::error::AppError;
use vstd::string::StrSliceExecFns;
use vstd::string::StringExecFns;

/// Process-level settings. Constructed once at startup; never mutated.
#[derive(Debug, Clone)]
pub struct Config {
    pub google_client_id: String,
    pub google_client_secret: String,
    pub server_host: String,
    pub server_port: u16,
    pub redirect_uri: String,
}

/// `c` is a decimal digit.
pub open spec fn is_digit(c: char) -> bool {
    48 <= c as int <= 57
}

pub open spec fn all_digits(s: Seq<char>) -> bool {
    forall|i: int| 0 <= i < s.len() ==> is_digit(#[trigger] s[i])
}

/// The value of a decimal digit string, most significant digit first.
pub open spec fn digits_val(s: Seq<char>) -> int
    decreases s.len(),
{
    if s.len() == 0 {
        0
    } else {
        digits_val(s.take(s.len() - 1)) * 10 + (s.last() as int - 48)
    }
}

/// `s` spells a port number: at least one digit, digits only, and a value
/// that fits in sixteen bits.
pub open spec fn is_port_chars(s: Seq<char>) -> bool {
    s.len() >= 1 && all_digits(s) && digits_val(s) <= 65535
}

proof fn lemma_digits_val_nonneg(s: Seq<char>)
    requires
        all_digits(s),
    ensures
        digits_val(s) >= 0,
    decreases s.len(),
{
    if s.len() > 0 {
        assert(all_digits(s.take(s.len() - 1)));
        lemma_digits_val_nonneg(s.take(s.len() - 1));
    }
}

/// A digit string is worth at least any of its prefixes.
proof fn lemma_digits_val_prefix_le(s: Seq<char>, i: int)
    requires
        all_digits(s),
        0 <= i <= s.len(),
    ensures
        digits_val(s.take(i)) <= digits_val(s),
    decreases s.len() - i,
{
    if i == s.len() {
        assert(s.take(i) =~= s);
    } else {
        lemma_digits_val_prefix_le(s, i + 1);
        assert(s.take(i + 1).take(i) =~= s.take(i));
        assert(s.take(i + 1).last() == s[i]);
        assert(all_digits(s.take(i)));
        lemma_digits_val_nonneg(s.take(i));
        assert(digits_val(s.take(i + 1)) == digits_val(s.take(i)) * 10 + (s[i] as int - 48));
    }
}

/// Parses a decimal port number; `Some` exactly when the text spells a
/// value that fits in sixteen bits.
pub fn parse_port(s: &String) -> (r: Option<u16>)
    ensures
        r is Some <==> is_port_chars(s@),
        r matches Some(v) ==> v as int == digits_val(s@),
{
    let text = s.as_str();
    let n = text.unicode_len();
    if n == 0 {
        return None;
    }
    let mut acc: u32 = 0;
    let mut i: usize = 0;
    while i < n
        invariant
            0 < n == text@.len(),
            text@ == s@,
            i <= n,
            all_digits(text@.take(i as int)),
            acc as int == digits_val(text@.take(i as int)),
            acc <= 65535,
        decreases n - i,
    {
        let c = text.get_char(i);
        let u = c as u32;
        if u < 48 || u > 57 {
            assert(!is_digit(s@[i as int]));
            return None;
        }
        proof {
            assert(text@.take(i + 1).take(i as int) =~= text@.take(i as int));
            assert(text@.take(i + 1).last() == text@[i as int]);
            assert(all_digits(text@.take(i + 1)));
        }
        acc = acc * 10 + (u - 48);
        i = i + 1;
        if acc > 65535 {
            proof {
                if is_port_chars(s@) {
                    lemma_digits_val_prefix_le(s@, i as int);
                }
            }
            return None;
        }
    }
    proof {
        assert(text@.take(n as int) =~= text@);
    }
    Some(acc as u16)
}

/// The value bound to `key` among the pairs, first binding first.
pub open spec fn env_lookup(vars: Seq<(String, String)>, key: Seq<char>) -> Option<Seq<char>>
    decreases vars.len(),
{
    if vars.len() == 0 {
        None
    } else if vars[0].0@ == key {
        Some(vars[0].1@)
    } else {
        env_lookup(vars.drop_first(), key)
    }
}

/// Linear lookup of `key` among the pairs.
fn lookup(vars: &Vec<(String, String)>, key: &str) -> (r: Option<String>)
    ensures
        match r {
            Some(v) => env_lookup(vars@, key@) == Some(v@),
            None => env_lookup(vars@, key@) is None,
        },
{
    let key_string = String::from_str(key);
    let mut i: usize = 0;
    proof {
        assert(vars@.skip(0) =~= vars@);
    }
    while i < vars.len()
        invariant
            i <= vars.len(),
            key_string@ == key@,
            env_lookup(vars@, key@) == env_lookup(vars@.skip(i as int), key@),
        decreases vars.len() - i,
    {
        proof {
            assert(vars@.skip(i as int)[0] == vars@[i as int]);
            assert(vars@.skip(i as int).drop_first() =~= vars@.skip(i + 1));
        }
        if vars[i].0 == key_string {
            return Some(vars[i].1.clone());
        }
        i = i + 1;
    }
    proof {
        assert(vars@.skip(vars@.len() as int) =~= Seq::<(String, String)>::empty());
    }
    None
}

/// All five settings are present and the port parses.
pub open spec fn env_ok(vars: Seq<(String, String)>) -> bool {
    &&& env_lookup(vars, "GOOGLE_CLIENT_ID"@) is Some
    &&& env_lookup(vars, "GOOGLE_CLIENT_SECRET"@) is Some
    &&& env_lookup(vars, "SERVER_HOST"@) is Some
    &&& env_lookup(vars, "REDIRECT_URI"@) is Some
    &&& match env_lookup(vars, "SERVER_PORT"@) {
        Some(p) => is_port_chars(p),
        None => false,
    }
}

/// The first setting, in a fixed order, that is missing or malformed.
pub open spec fn first_config_fault(vars: Seq<(String, String)>) -> Seq<char> {
    if env_lookup(vars, "GOOGLE_CLIENT_ID"@) is None {
        "GOOGLE_CLIENT_ID"@
    } else if env_lookup(vars, "GOOGLE_CLIENT_SECRET"@) is None {
        "GOOGLE_CLIENT_SECRET"@
    } else if env_lookup(vars, "SERVER_HOST"@) is None {
        "SERVER_HOST"@
    } else if env_lookup(vars, "REDIRECT_URI"@) is None {
        "REDIRECT_URI"@
    } else {
        "SERVER_PORT"@
    }
}

impl Config {
    /// Builds the configuration from environment-style key-value pairs.
    /// Succeeds exactly when every setting is present and the port spells a
    /// sixteen-bit number; otherwise names the first offending key.
    pub fn from_env(vars: &Vec<(String, String)>) -> (r: Result<Config, AppError>)
        ensures
            r is Ok <==> env_ok(vars@),
            r matches Ok(c) ==> {
                &&& env_lookup(vars@, "GOOGLE_CLIENT_ID"@) == Some(c.google_client_id@)
                &&& env_lookup(vars@, "GOOGLE_CLIENT_SECRET"@) == Some(c.google_client_secret@)
                &&& env_lookup(vars@, "SERVER_HOST"@) == Some(c.server_host@)
                &&& env_lookup(vars@, "REDIRECT_URI"@) == Some(c.redirect_uri@)
                &&& match env_lookup(vars@, "SERVER_PORT"@) {
                    Some(p) => c.server_port as int == digits_val(p),
                    None => false,
                }
            },
            r matches Err(e) ==> (e matches AppError::Config(k) && k@ == first_config_fault(
                vars@,
            )),
    {
        let google_client_id = match lookup(vars, "GOOGLE_CLIENT_ID") {
            Some(v) => v,
            None => {
                return Err(AppError::Config(String::from_str("GOOGLE_CLIENT_ID")));
            },
        };
        let google_client_secret = match lookup(vars, "GOOGLE_CLIENT_SECRET") {
            Some(v) => v,
            None => {
                return Err(AppError::Config(String::from_str("GOOGLE_CLIENT_SECRET")));
            },
        };
        let server_host = match lookup(vars, "SERVER_HOST") {
            Some(v) => v,
            None => {
                return Err(AppError::Config(String::from_str("SERVER_HOST")));
            },
        };
        let redirect_uri = match lookup(vars, "REDIRECT_URI") {
            Some(v) => v,
            None => {
                return Err(AppError::Config(String::from_str("REDIRECT_URI")));
            },
        };
        let port_text = match lookup(vars, "SERVER_PORT") {
            Some(v) => v,
            None => {
                return Err(AppError::Config(String::from_str("SERVER_PORT")));
            },
        };
        let server_port = match parse_port(&port_text) {
            Some(v) => v,
            None => {
                return Err(AppError::Config(String::from_str("SERVER_PORT")));
            },
        };
        Ok(
            Config {
                google_client_id,
                google_client_secret,
                server_host,
                server_port,
                redirect_uri,
            },
        )
    }
}

impl Default for Config {
    /// The insecure development fallback settings; production must supply
    /// real values through the environment.
    fn default() -> (c: Config)
        ensures
            c.google_client_id@ == "your_google_client_id_here"@,
            c.google_client_secret@ == "your_google_client_secret_here"@,
            c.server_host@ == "0.0.0.0"@,
            c.server_port == 3000,
            c.redirect_uri@ == "http://localhost:3000/auth/callback"@,
    {
        Config {
            google_client_id: String::from_str("your_google_client_id_here"),
            google_client_secret: String::from_str("your_google_client_secret_here"),
            server_host: String::from_str("0.0.0.0"),
            server_port: 3000,
            redirect_uri: String::from_str("http://localhost:3000/auth/callback"),
        }
    }
}

/// Immutable provider configuration: read-only input to the authorization
/// request issuer and the callback exchanger, shared by all requests.
#[derive(Debug, Clone)]
pub struct OAuthClientConfig {
    pub client_id: String,
    pub client_secret: String,
    pub authorization_endpoint: String,
    pub token_endpoint: String,
    pub redirect_uri: String,
    pub scopes: Vec<String>,
}

impl OAuthClientConfig {
    /// All endpoints and credentials are non-empty and at least one scope is
    /// requested.
    pub open spec fn wf(self) -> bool {
        &&& self.client_id@.len() > 0
        &&& self.client_secret@.len() > 0
        &&& self.authorization_endpoint@.len() > 0
        &&& self.token_endpoint@.len() > 0
        &&& self.redirect_uri@.len() > 0
        &&& self.scopes@.len() > 0
    }

    /// Provider configuration for the fixed identity provider endpoints,
    /// requesting the scopes `openid`, `email` and `profile`.
    pub fn for_google(c: &Config) -> (r: OAuthClientConfig)
        requires
            c.google_client_id@.len() > 0,
            c.google_client_secret@.len() > 0,
            c.redirect_uri@.len() > 0,
        ensures
            r.wf(),
            r.client_id@ == c.google_client_id@,
            r.client_secret@ == c.google_client_secret@,
            r.redirect_uri@ == c.redirect_uri@,
            r.authorization_endpoint@ == "https://accounts.google.com/o/oauth2/auth"@,
            r.token_endpoint@ == "https://oauth2.googleapis.com/token"@,
            r.scopes@.len() == 3,
            r.scopes@[0]@ == "openid"@,
            r.scopes@[1]@ == "email"@,
            r.scopes@[2]@ == "profile"@,
    {
        let mut scopes: Vec<String> = Vec::new();
        scopes.push(String::from_str("openid"));
        scopes.push(String::from_str("email"));
        scopes.push(String::from_str("profile"));
        proof {
            reveal_strlit("https://accounts.google.com/o/oauth2/auth");
            reveal_strlit("https://oauth2.googleapis.com/token");
        }
        OAuthClientConfig {
            client_id: c.google_client_id.clone(),
            client_secret: c.google_client_secret.clone(),
            authorization_endpoint: String::from_str(
                "https://accounts.google.com/o/oauth2/auth",
            ),
            token_endpoint: String::from_str("https://oauth2.googleapis.com/token"),
            redirect_uri: c.redirect_uri.clone(),
            scopes,
        }
    }
}

} // verus!
