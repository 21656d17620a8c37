//! Northbound OAuth decisions for a protected `/mcp` mount.
//!
//! A request is let through only with an `Authorization: Bearer <token>`
//! header whose token the introspection endpoint reports active, for this
//! resource, with the required scope, and not yet expired. Calling the
//! introspection endpoint and reading the clock are left to the caller,
//! which hands the results to these functions.

use vstd::prelude::*;
use vstd::string::*;

use crate::gateway::url::{opt_parts_view, parse_url_parts, url_parts, UrlParts};
use crate::text::{json_quoted, json_string, opt_view, owned, starts_with, str_eq};

verus! {

/// Northbound OAuth settings of a protected `/mcp` mount.
#[derive(Debug, Clone, PartialEq, Eq)]
pub struct NorthboundOAuthConfig {
    /// The protected resource, e.g. `https://host.example/mcp`.
    pub resource_url: String,
    /// Token introspection endpoint.
    pub introspection_url: String,
    /// Scope every accepted token must carry.
    pub required_scope: String,
}

/// The `aud` claim of an introspection response.
#[derive(Debug, Clone, PartialEq, Eq)]
pub enum Audience {
    /// A single audience string.
    One(String),
    /// An array of audiences; entries that are not strings are `None`.
    Many(Vec<Option<String>>),
    /// Absent, or neither a string nor an array.
    Other,
}

/// The introspection response fields the decision reads.
#[derive(Debug, Clone, PartialEq, Eq)]
pub struct Introspection {
    pub active: bool,
    pub aud: Audience,
    pub scope: Option<String>,
    /// Expiry, in seconds since the Unix epoch.
    pub exp: Option<u64>,
}

/// The scheme that precedes a bearer token in the `Authorization` header.
pub const BEARER_PREFIX: &'static str = "Bearer ";

/// The token of an `Authorization` header value: what follows `Bearer `,
/// when that is not empty.
pub open spec fn bearer_token_spec(header: Option<Seq<char>>) -> Option<Seq<char>> {
    match header {
        Some(h) => if BEARER_PREFIX@.is_prefix_of(h) && h.len() > BEARER_PREFIX@.len() {
            Some(h.skip(BEARER_PREFIX@.len() as int))
        } else {
            None
        },
        None => None,
    }
}

/// The view of an optional string slice.
pub open spec fn opt_str_view(o: Option<&str>) -> Option<Seq<char>> {
    match o {
        Some(s) => Some(s@),
        None => None,
    }
}

/// Extract the bearer token from the `Authorization` header value (`None`
/// when the header is absent or not text).
pub fn bearer_token(header: Option<&str>) -> (r: Option<&str>)
    ensures
        opt_str_view(r) == bearer_token_spec(opt_str_view(header)),
{
    match header {
        Some(h) => {
            if !starts_with(h, BEARER_PREFIX) {
                return None;
            }
            let n = h.unicode_len();
            let p = BEARER_PREFIX.unicode_len();
            if n <= p {
                return None;
            }
            let token = h.substring_char(p, n);
            assert(token@ =~= h@.skip(p as int));
            Some(token)
        },
        None => None,
    }
}

/// The audience claim names `expected`.
pub open spec fn audience_matches_spec(aud: Audience, expected: Seq<char>) -> bool {
    match aud {
        Audience::One(v) => v@ == expected,
        Audience::Many(vs) => exists|i: int|
            0 <= i < vs@.len() && #[trigger] opt_view(vs@[i]) == Some(expected),
        Audience::Other => false,
    }
}

/// Whether the audience claim names `expected`.
pub fn audience_matches(aud: &Audience, expected: &str) -> (r: bool)
    ensures
        r == audience_matches_spec(*aud, expected@),
{
    match aud {
        Audience::One(v) => str_eq(v.as_str(), expected),
        Audience::Many(vs) => {
            let n = vs.len();
            let mut i: usize = 0;
            while i < n
                invariant
                    *aud == Audience::Many(*vs),
                    n == vs@.len(),
                    i <= n,
                    forall|k: int| 0 <= k < i ==> #[trigger] opt_view(vs@[k]) != Some(expected@),
                decreases n - i,
            {
                let entry = &vs[i];
                assert(*entry == vs@[i as int]);
                match entry {
                    Some(v) => {
                        if str_eq(v.as_str(), expected) {
                            assert(opt_view(vs@[i as int]) == Some(expected@));
                            return true;
                        }
                    },
                    None => {},
                }
                i = i + 1;
            }
            false
        },
        Audience::Other => false,
    }
}

/// ASCII whitespace as `split_ascii_whitespace` understands it.
pub open spec fn is_ascii_ws(c: char) -> bool {
    c == ' ' || c == '\t' || c == '\n' || c == '\x0C' || c == '\r'
}

fn ascii_ws(c: char) -> (r: bool)
    ensures
        r == is_ascii_ws(c),
{
    c == ' ' || c == '\t' || c == '\n' || c == '\x0C' || c == '\r'
}

/// `w` occurs in `s` at `k` as a whole whitespace-separated word.
pub open spec fn word_at(s: Seq<char>, w: Seq<char>, k: int) -> bool {
    &&& 0 <= k
    &&& k + w.len() <= s.len()
    &&& s.subrange(k, k + w.len()) == w
    &&& (k == 0 || is_ascii_ws(s[k - 1]))
    &&& (k + w.len() == s.len() || is_ascii_ws(s[k + w.len()]))
}

/// `w` is one of the whitespace-separated words of `scopes` (a word is
/// never empty and holds no whitespace).
pub open spec fn scope_listed(scopes: Seq<char>, w: Seq<char>) -> bool {
    &&& w.len() > 0
    &&& forall|i: int| 0 <= i < w.len() ==> !is_ascii_ws(#[trigger] w[i])
    &&& exists|k: int| word_at(scopes, w, k)
}

/// Whether `required` is one of the whitespace-separated scopes.
pub fn scope_granted(scopes: &str, required: &str) -> (r: bool)
    ensures
        r == scope_listed(scopes@, required@),
{
    let ghost s = scopes@;
    let ghost w = required@;
    let n = scopes.unicode_len();
    let m = required.unicode_len();
    if m == 0 {
        return false;
    }
    let mut j: usize = 0;
    while j < m
        invariant
            w == required@,
            m == w.len(),
            j <= m,
            forall|q: int| 0 <= q < j ==> !is_ascii_ws(#[trigger] w[q]),
        decreases m - j,
    {
        if ascii_ws(required.get_char(j)) {
            return false;
        }
        j = j + 1;
    }
    let mut i: usize = 0;
    while i < n
        invariant
            s == scopes@,
            w == required@,
            n == s.len(),
            m == w.len(),
            m > 0,
            forall|q: int| 0 <= q < m ==> !is_ascii_ws(#[trigger] w[q]),
            i <= n,
            i == 0 || i == n || is_ascii_ws(s[i - 1]) || is_ascii_ws(s[i as int]),
            forall|k: int| 0 <= k < i ==> !word_at(s, w, k),
        decreases n - i,
    {
        if ascii_ws(scopes.get_char(i)) {
            proof {
                if word_at(s, w, i as int) {
                    assert(s.subrange(i as int, i + m)[0] == w[0]);
                }
            }
            i = i + 1;
        } else {
            let start = i;
            while i < n && !ascii_ws(scopes.get_char(i))
                invariant
                    s == scopes@,
                    n == s.len(),
                    start <= i <= n,
                    forall|q: int| start <= q < i ==> !is_ascii_ws(#[trigger] s[q]),
                decreases n - i,
            {
                i = i + 1;
            }
            let token = scopes.substring_char(start, i);
            if str_eq(token, required) {
                assert(word_at(s, w, start as int));
                return true;
            }
            proof {
                assert forall|k: int| 0 <= k < i implies !word_at(s, w, k) by {
                    if start < k && word_at(s, w, k) {
                        assert(!is_ascii_ws(s[k - 1]));
                    }
                    if k == start as int && word_at(s, w, k) {
                        if k + m < i {
                            assert(!is_ascii_ws(s[k + m]));
                        } else if k + m > i {
                            assert(s.subrange(k, k + m)[i - k] == s[i as int]);
                            assert(!is_ascii_ws(w[i - k]));
                        } else {
                            assert(token@ =~= s.subrange(k, k + m));
                        }
                    }
                }
            }
        }
    }
    proof {
        assert forall|k: int| !word_at(s, w, k) by {
            if 0 <= k < n {
            }
        }
    }
    false
}

/// The token is active, for `config`'s resource, carries the required
/// scope, and expires after `now` (seconds since the Unix epoch).
pub open spec fn token_authorized_spec(
    config: NorthboundOAuthConfig,
    token: Introspection,
    now: u64,
) -> bool {
    &&& token.active
    &&& audience_matches_spec(token.aud, config.resource_url@)
    &&& token.scope matches Some(scopes) && scope_listed(scopes@, config.required_scope@)
    &&& token.exp matches Some(exp) && exp > now
}

/// Decide whether an introspected token authorizes a request at `now`.
pub fn token_is_authorized(config: &NorthboundOAuthConfig, token: &Introspection, now: u64) -> (r:
    bool)
    ensures
        r == token_authorized_spec(*config, *token, now),
{
    if !token.active || !audience_matches(&token.aud, config.resource_url.as_str()) {
        return false;
    }
    let granted = match &token.scope {
        Some(scopes) => scope_granted(scopes.as_str(), config.required_scope.as_str()),
        None => false,
    };
    if !granted {
        return false;
    }
    match token.exp {
        Some(exp) => exp > now,
        None => false,
    }
}

/// The `WWW-Authenticate` challenge of a `401` answer.
pub open spec fn challenge_text(metadata_url: Seq<char>, scope: Seq<char>) -> Seq<char> {
    "Bearer resource_metadata=\""@ + metadata_url + "\", scope=\""@ + scope + "\""@
}

/// Build the `WWW-Authenticate` challenge of a `401` answer.
pub fn challenge(metadata_url: &str, scope: &str) -> (r: String)
    ensures
        r@ == challenge_text(metadata_url@, scope@),
{
    let mut s = owned("Bearer resource_metadata=\"");
    s.append(metadata_url);
    s.append("\", scope=\"");
    s.append(scope);
    s.append("\"");
    s
}


/// Where the OAuth protected-resource metadata of a resource lives.
#[derive(Debug, Clone, PartialEq, Eq)]
pub struct OAuthEndpoints {
    /// The resource's origin followed by `/`.
    pub authorization_server: String,
    /// Absolute URL of the metadata document.
    pub metadata_url: String,
    /// Route of the metadata document on the gateway.
    pub metadata_path: String,
}

/// The endpoints derived from a resource's parsed origin and path.
pub open spec fn endpoints_of(
    parts: Option<(Seq<char>, Option<Seq<char>>, Option<u16>, Seq<char>)>,
) -> Option<(Seq<char>, Seq<char>, Seq<char>)> {
    match parts {
        Some((path, _, _, origin)) => Some(
            (
                origin + "/"@,
                origin + "/"@ + ".well-known/oauth-protected-resource"@ + path,
                "/.well-known/oauth-protected-resource"@ + path,
            ),
        ),
        None => None,
    }
}

/// The view of derived endpoints.
pub open spec fn endpoints_view(e: Option<OAuthEndpoints>) -> Option<
    (Seq<char>, Seq<char>, Seq<char>),
> {
    match e {
        Some(x) => Some((x.authorization_server@, x.metadata_url@, x.metadata_path@)),
        None => None,
    }
}

/// Derive the metadata endpoints from a resource's origin and path.
pub fn endpoints_from_parts(parts: Option<UrlParts>) -> (r: Option<OAuthEndpoints>)
    ensures
        endpoints_view(r) == endpoints_of(opt_parts_view(parts)),
{
    match parts {
        Some(p) => {
            let path = p.path;
            let mut server = p.origin;
            server.append("/");
            let mut url = server.clone();
            url.append(".well-known/oauth-protected-resource");
            url.append(path.as_str());
            let mut route = owned("/.well-known/oauth-protected-resource");
            route.append(path.as_str());
            Some(OAuthEndpoints { authorization_server: server, metadata_url: url, metadata_path: route })
        },
        None => None,
    }
}

/// Derive the metadata endpoints of `resource_url` (`None` when the URL
/// does not parse).
pub fn oauth_endpoints(resource_url: &str) -> (r: Option<OAuthEndpoints>)
    ensures
        endpoints_view(r) == endpoints_of(url_parts(resource_url@)),
{
    endpoints_from_parts(parse_url_parts(resource_url))
}

/// The public protected-resource metadata document (compact JSON, members
/// in lexicographic key order).
pub open spec fn resource_metadata_json(
    resource: Seq<char>,
    authorization_server: Seq<char>,
    scope: Seq<char>,
) -> Seq<char> {
    "{\"authorization_servers\":["@ + json_quoted(authorization_server)
        + "],\"bearer_methods_supported\":[\"header\"],\"resource\":"@ + json_quoted(resource)
        + ",\"scopes_supported\":["@ + json_quoted(scope) + "]}"@
}

/// Build the protected-resource metadata document served to clients.
pub fn resource_metadata(config: &NorthboundOAuthConfig, endpoints: &OAuthEndpoints) -> (r:
    String)
    ensures
        r@ == resource_metadata_json(
            config.resource_url@,
            endpoints.authorization_server@,
            config.required_scope@,
        ),
{
    let mut s = owned("{\"authorization_servers\":[");
    s.append(json_string(endpoints.authorization_server.as_str()).as_str());
    s.append("],\"bearer_methods_supported\":[\"header\"],\"resource\":");
    s.append(json_string(config.resource_url.as_str()).as_str());
    s.append(",\"scopes_supported\":[");
    s.append(json_string(config.required_scope.as_str()).as_str());
    s.append("]}");
    s
}

} // verus!
