//! The parts of a URL that the gateway's decisions read, as the `url`
//! crate (through `reqwest::Url`) parses them.

use vstd::prelude::*;

use crate::text::opt_view;

verus! {

/// Path, host, port (explicit or the scheme's default) and origin (ASCII
/// serialization) of a parsed URL.
pub struct UrlParts {
    pub path: String,
    pub host: Option<String>,
    pub port: Option<u16>,
    pub origin: String,
}

/// The view of parsed URL parts.
pub open spec fn url_parts_view(p: UrlParts) -> (Seq<char>, Option<Seq<char>>, Option<u16>, Seq<char>) {
    (p.path@, opt_view(p.host), p.port, p.origin@)
}

/// Path, host, `port_or_known_default` and origin that `reqwest::Url::parse`
/// yields for `url`, or `None` when `url` does not parse.
pub uninterp spec fn url_parts(url: Seq<char>) -> Option<
    (Seq<char>, Option<Seq<char>>, Option<u16>, Seq<char>),
>;

/// Parse `url` with `reqwest::Url::parse` and hand back its `path()`,
/// `host_str()`, `port_or_known_default()` and
/// `origin().ascii_serialization()`. The contract only names the result.
#[verifier::external_body]
pub(crate) fn parse_url_parts(url: &str) -> (r: Option<UrlParts>)
    ensures
        match r {
            Some(p) => url_parts(url@) == Some(url_parts_view(p)),
            None => url_parts(url@) is None,
        },
{
    match reqwest::Url::parse(url) {
        Ok(parsed) => Some(
            UrlParts {
                path: parsed.path().to_string(),
                host: parsed.host_str().map(|h| h.to_string()),
                port: parsed.port_or_known_default(),
                origin: parsed.origin().ascii_serialization(),
            },
        ),
        Err(_) => None,
    }
}

/// The view of optional parsed URL parts.
pub open spec fn opt_parts_view(o: Option<UrlParts>) -> Option<
    (Seq<char>, Option<Seq<char>>, Option<u16>, Seq<char>),
> {
    match o {
        Some(p) => Some(url_parts_view(p)),
        None => None,
    }
}

} // verus!
