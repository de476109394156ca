//! Base-URL reporting for the two introspection routes: the scheme comes
//! from the request itself, or from the forwarded-protocol header when a
//! proxy in front of the gateway supplies one.

use vstd::prelude::*;

verus! {

use vstd::string::StringExecFns;

/// The request's own base URL: `https://host` when the request came in over
/// HTTPS, else `http://host`.
pub fn get_base_url(is_https: bool, host: &String) -> (r: String)
    ensures
        is_https ==> r@ == "https://"@ + host@,
        !is_https ==> r@ == "http://"@ + host@,
{
    let mut r = if is_https {
        String::from_str("https://")
    } else {
        String::from_str("http://")
    };
    r.append(host.as_str());
    r
}

/// The proxy-aware base URL: a forwarded protocol, where the proxy names
/// one, overrides the request's own scheme.
pub fn get_base_url_with_proxy(
    forwarded_proto: &Option<String>,
    is_https: bool,
    host: &String,
) -> (r: String)
    ensures
        forwarded_proto matches Some(p) ==> r@ == p@ + "://"@ + host@,
        forwarded_proto is None && is_https ==> r@ == "https://"@ + host@,
        forwarded_proto is None && !is_https ==> r@ == "http://"@ + host@,
{
    match forwarded_proto {
        Some(p) => {
            let mut r = p.clone();
            r.append("://");
            r.append(host.as_str());
            r
        },
        None => get_base_url(is_https, host),
    }
}

} // verus!
