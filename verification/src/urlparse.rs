//! URL parsing behind one trusted wrapper. The parsed components are
//! carried as plain values so the resolvers' routing and rewriting
//! logic stays verifiable; parsing itself is the `url` crate's work
//! and is named, not restated.

use vstd::prelude::*;

verus! {

/// The components of a parsed URL, as plain values: the scheme
/// lower-cased, the host as parsed (punycode or percent-encoded), the
/// explicit port, the userinfo, the percent-encoded path, and the
/// decoded query pairs.
pub struct UrlParts {
    pub scheme: String,
    pub host: Option<String>,
    pub port: Option<u16>,
    pub username: String,
    pub password: Option<String>,
    pub path: String,
    pub query_pairs: Vec<(String, String)>,
}

/// Ghost image of `UrlParts`.
pub struct UrlPartsView {
    pub scheme: Seq<char>,
    pub host: Option<Seq<char>>,
    pub port: Option<u16>,
    pub username: Seq<char>,
    pub password: Option<Seq<char>>,
    pub path: Seq<char>,
    pub query_pairs: Seq<(Seq<char>, Seq<char>)>,
}

impl View for UrlParts {
    type V = UrlPartsView;

    open spec fn view(&self) -> UrlPartsView {
        UrlPartsView {
            scheme: self.scheme@,
            host: self.host.deep_view(),
            port: self.port,
            username: self.username@,
            password: self.password.deep_view(),
            path: self.path@,
            query_pairs: self.query_pairs.deep_view(),
        }
    }
}

/// What `url::Url::parse` makes of a string: its components, or
/// nothing when the string is not a URL.
pub uninterp spec fn url_parse_spec(s: Seq<char>) -> Option<UrlPartsView>;

/// Relies on `url::Url::parse` and its component accessors (`scheme`,
/// `host_str`, `port`, `username`, `password`, `path`, `query_pairs`):
/// the parsed components depend on the input string alone.
#[verifier::external_body]
pub fn parse_url(s: &str) -> (r: Option<UrlParts>)
    ensures
        r matches Some(p) ==> url_parse_spec(s@) == Some(p@),
        r is None ==> url_parse_spec(s@) is None,
{
    match url::Url::parse(s) {
        Ok(u) => Some(UrlParts {
            scheme: u.scheme().to_string(),
            host: u.host_str().map(|h| h.to_string()),
            port: u.port(),
            username: u.username().to_string(),
            password: u.password().map(|p| p.to_string()),
            path: u.path().to_string(),
            query_pairs: u.query_pairs().map(|(k, v)| (k.into_owned(), v.into_owned())).collect(),
        }),
        Err(_) => None,
    }
}

} // verus!
