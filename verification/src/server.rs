//! What the web service derives from its configuration before it starts: the address
//! it listens on, the sign-in callbacks it registers, the domain of its session cookie.
use vstd::prelude::*;
use crate::config::{is_url, parses_as_url};
use crate::issues::opt_view;
use crate::text::{concat3, decimal, u64_to_string};

verus! {

/// The address `host:port` the server listens on.
pub fn listen_address(host: &str, port: u16) -> (r: String)
    ensures
        r@ == host@ + ":"@ + decimal(port as nat),
{
    let p = u64_to_string(port as u64);
    concat3(host, ":", p.as_str())
}

pub open spec fn callback_path() -> Seq<char> {
    "/api/v1/auth/callback/"@
}

/// Where the sign-in provider `provider` sends its users back to: a route of the
/// service's public URL `app_url`.
pub fn oauth_callback_url(app_url: &str, provider: &str) -> (r: String)
    ensures
        r@ == app_url@ + callback_path() + provider@,
{
    concat3(app_url, "/api/v1/auth/callback/", provider)
}

/// The release the service reports itself as: `package@version-hash`.
pub fn release_name(package: &str, version: &str, hash: &str) -> (r: String)
    ensures
        r@ == package@ + "@"@ + version@ + "-"@ + hash@,
{
    let a = concat3(package, "@", version);
    let b = concat3(a.as_str(), "-", hash);
    b
}

/// The domain of the URL `s` as the `url` crate parses it: `None` where `s` is no
/// URL, or its host is no domain (an IP address, or no host at all).
pub uninterp spec fn url_domain(s: Seq<char>) -> Option<Seq<char>>;

/// `url::Url::parse(s)` and then `Url::domain`; a URL that has a domain parses.
#[verifier::external_body]
fn parsed_domain(s: &str) -> (r: Option<String>)
    ensures
        opt_view(r) == url_domain(s@),
        r is Some ==> is_url(s@),
{
    url::Url::parse(s).ok().and_then(|u| u.domain().map(|d| d.to_owned()))
}

/// Why the session cookie has no domain.
#[derive(Debug, Clone, Copy, PartialEq, Eq, Structural)]
pub enum DomainError {
    /// The frontend's URL is no URL.
    InvalidUrl,
    /// It has no domain.
    NoDomain,
}

/// The domain the session cookie is set for: that of the frontend's URL.
pub fn session_cookie_domain(frontend_url: &str) -> (r: Result<String, DomainError>)
    ensures
        match url_domain(frontend_url@) {
            Some(d) => r matches Ok(x) && x@ == d,
            None => r == if is_url(frontend_url@) {
                Err::<String, DomainError>(DomainError::NoDomain)
            } else {
                Err::<String, DomainError>(DomainError::InvalidUrl)
            },
        },
{
    match parsed_domain(frontend_url) {
        Some(d) => Ok(d),
        None => if parses_as_url(frontend_url) {
            Err(DomainError::NoDomain)
        } else {
            Err(DomainError::InvalidUrl)
        },
    }
}

} // verus!
