//! The legacy deployment configuration (`mcp-proxy` shaped) and the
//! deployment gateway policy over it.
//!
//! [`LegacyConfig`] holds, as plain values, every setting the policy and
//! the migrations read from an `mcp-proxy` configuration: optional
//! middleware blocks are recorded by presence and rewriting lists by
//! length. The policy is a sequence of focused rules checked in a fixed
//! order; the first violated rule is the one reported.

use vstd::prelude::*;
use vstd::string::*;

use crate::config::validate::{
    backend_url_allowed, is_exact_loopback_mcp_url, is_exact_tailnet_https_mcp_url,
    MAX_ARGUMENT_SIZE_BYTES,
};
use crate::error::GatewayError;
use crate::text::str_eq;

verus! {

/// Backend transport of a legacy entry.
#[derive(Debug, Clone, Copy, PartialEq, Eq)]
pub enum LegacyTransport {
    /// Subprocess over stdin/stdout.
    Stdio,
    /// Streamable HTTP.
    Http,
    /// WebSocket.
    Websocket,
}

/// How backend tools are exposed to clients.
#[derive(Debug, Clone, Copy, PartialEq, Eq)]
pub enum LegacyToolExposure {
    /// Every backend tool appears in listings.
    Direct,
    /// Only search meta-tools appear.
    Search,
}

/// One legacy backend entry.
#[derive(Debug, Clone)]
pub struct LegacyBackend {
    pub name: String,
    pub transport: LegacyTransport,
    pub url: Option<String>,
    pub timeout_seconds: Option<u64>,
    pub bearer_token: Option<String>,
    pub has_circuit_breaker: bool,
    pub has_rate_limit: bool,
    pub has_concurrency: bool,
    pub has_retry: bool,
    pub has_outlier_detection: bool,
    pub has_hedging: bool,
    pub has_cache: bool,
    pub mirror_of: Option<String>,
    pub failover_for: Option<String>,
    pub canary_of: Option<String>,
    pub forward_auth: bool,
    pub aliases: usize,
    pub default_args: usize,
    pub inject_args: usize,
    pub param_overrides: usize,
    pub expose_tools: usize,
    pub hide_tools: usize,
    pub expose_resources: usize,
    pub hide_resources: usize,
    pub expose_prompts: usize,
    pub hide_prompts: usize,
    pub hide_destructive: bool,
    pub read_only_only: bool,
}

/// A legacy deployment configuration.
#[derive(Debug, Clone)]
pub struct LegacyConfig {
    pub name: String,
    pub version: String,
    pub separator: String,
    pub listen_host: String,
    pub listen_port: u16,
    pub instructions: Option<String>,
    pub shutdown_timeout_seconds: u64,
    pub hot_reload: bool,
    pub tool_exposure: LegacyToolExposure,
    pub tool_discovery: bool,
    pub has_rate_limit: bool,
    pub has_auth: bool,
    pub has_admin_token: bool,
    pub coalesce_requests: bool,
    pub composite_tools: usize,
    pub cache_backend: String,
    pub cache_url: Option<String>,
    pub cache_prefix: String,
    pub max_argument_size: Option<usize>,
    pub audit: bool,
    pub log_level: String,
    pub json_logs: bool,
    pub backends: Vec<LegacyBackend>,
}

/// The inert global cache backend.
pub const INERT_CACHE_BACKEND: &'static str = "memory";

/// The inert global cache key prefix.
pub const INERT_CACHE_PREFIX: &'static str = "mcp-proxy:";

/// A global legacy rule, in the order the policy checks them.
#[derive(Debug, Clone, Copy, PartialEq, Eq)]
pub enum LegacyRule {
    ListenerHost,
    Separator,
    HotReload,
    ToolExposure,
    ToolDiscovery,
    RateLimit,
    NorthboundAuth,
    AdminToken,
    CoalesceRequests,
    CompositeTools,
    Cache,
    ArgumentBound,
    NoBackends,
}

/// A per-backend legacy rule, in the order the policy checks them.
#[derive(Debug, Clone, Copy, PartialEq, Eq)]
pub enum LegacyBackendRule {
    NotHttp,
    Endpoint,
    Retry,
    Hedging,
    Cache,
    Middleware,
    Mirror,
    Failover,
    Canary,
    ForwardAuth,
    SurfaceRewriting,
}

/// The first global rule `c` violates, if any.
pub open spec fn legacy_global_fault(c: LegacyConfig) -> Option<LegacyRule> {
    if c.listen_host@ != "127.0.0.1"@ {
        Some(LegacyRule::ListenerHost)
    } else if c.separator@ != "_"@ {
        Some(LegacyRule::Separator)
    } else if c.hot_reload {
        Some(LegacyRule::HotReload)
    } else if c.tool_exposure != LegacyToolExposure::Direct {
        Some(LegacyRule::ToolExposure)
    } else if c.tool_discovery {
        Some(LegacyRule::ToolDiscovery)
    } else if c.has_rate_limit {
        Some(LegacyRule::RateLimit)
    } else if c.has_auth {
        Some(LegacyRule::NorthboundAuth)
    } else if c.has_admin_token {
        Some(LegacyRule::AdminToken)
    } else if c.coalesce_requests {
        Some(LegacyRule::CoalesceRequests)
    } else if c.composite_tools != 0 {
        Some(LegacyRule::CompositeTools)
    } else if !(c.cache_backend@ == INERT_CACHE_BACKEND@ && c.cache_url is None && c.cache_prefix@
        == INERT_CACHE_PREFIX@) {
        Some(LegacyRule::Cache)
    } else if !(match c.max_argument_size {
        Some(n) => 1 <= n <= MAX_ARGUMENT_SIZE_BYTES,
        None => false,
    }) {
        Some(LegacyRule::ArgumentBound)
    } else if c.backends@.len() == 0 {
        Some(LegacyRule::NoBackends)
    } else {
        None
    }
}

/// The URL a backend is checked with: its URL, or empty when it has none.
pub open spec fn legacy_url(b: LegacyBackend) -> Seq<char> {
    match b.url {
        Some(u) => u@,
        None => Seq::empty(),
    }
}

/// The backend rewrites or hides parts of the backend's surface.
pub open spec fn rewrites_surface(b: LegacyBackend) -> bool {
    !(b.aliases == 0 && b.default_args == 0 && b.inject_args == 0 && b.param_overrides == 0
        && b.expose_tools == 0 && b.hide_tools == 0 && b.expose_resources == 0 && b.hide_resources
        == 0 && b.expose_prompts == 0 && b.hide_prompts == 0 && !b.hide_destructive
        && !b.read_only_only)
}

/// The first per-backend rule `b` violates, if any.
pub open spec fn legacy_backend_fault(b: LegacyBackend, allow_tailnet: bool) -> Option<
    LegacyBackendRule,
> {
    if b.transport != LegacyTransport::Http {
        Some(LegacyBackendRule::NotHttp)
    } else if !backend_url_allowed(legacy_url(b), allow_tailnet) {
        Some(LegacyBackendRule::Endpoint)
    } else if b.has_retry {
        Some(LegacyBackendRule::Retry)
    } else if b.has_hedging {
        Some(LegacyBackendRule::Hedging)
    } else if b.has_cache {
        Some(LegacyBackendRule::Cache)
    } else if b.has_circuit_breaker || b.has_rate_limit || b.has_concurrency
        || b.has_outlier_detection {
        Some(LegacyBackendRule::Middleware)
    } else if b.mirror_of is Some {
        Some(LegacyBackendRule::Mirror)
    } else if b.failover_for is Some {
        Some(LegacyBackendRule::Failover)
    } else if b.canary_of is Some {
        Some(LegacyBackendRule::Canary)
    } else if b.forward_auth {
        Some(LegacyBackendRule::ForwardAuth)
    } else if rewrites_surface(b) {
        Some(LegacyBackendRule::SurfaceRewriting)
    } else {
        None
    }
}

/// First index at or after `i` whose backend violates a rule.
pub open spec fn first_faulty_legacy_from(bs: Seq<LegacyBackend>, allow_tailnet: bool, i: int) -> int
    decreases bs.len() - i,
{
    if i < 0 || i >= bs.len() {
        bs.len() as int
    } else if legacy_backend_fault(bs[i], allow_tailnet) is Some {
        i
    } else {
        first_faulty_legacy_from(bs, allow_tailnet, i + 1)
    }
}

pub proof fn lemma_first_faulty_legacy_from(bs: Seq<LegacyBackend>, allow_tailnet: bool, i: int)
    requires
        0 <= i <= bs.len(),
    ensures
        i <= first_faulty_legacy_from(bs, allow_tailnet, i) <= bs.len(),
        first_faulty_legacy_from(bs, allow_tailnet, i) < bs.len() ==> legacy_backend_fault(
            bs[first_faulty_legacy_from(bs, allow_tailnet, i)],
            allow_tailnet,
        ) is Some,
        forall|k: int|
            i <= k < first_faulty_legacy_from(bs, allow_tailnet, i) ==> legacy_backend_fault(
                #[trigger] bs[k],
                allow_tailnet,
            ) is None,
    decreases bs.len() - i,
{
    if i < bs.len() && legacy_backend_fault(bs[i], allow_tailnet) is None {
        lemma_first_faulty_legacy_from(bs, allow_tailnet, i + 1);
    }
}

/// The legacy policy accepts `c`.
pub open spec fn legacy_policy_ok(c: LegacyConfig, allow_tailnet: bool) -> bool {
    legacy_global_fault(c) is None && first_faulty_legacy_from(c.backends@, allow_tailnet, 0)
        == c.backends@.len()
}

/// `e` is the error the legacy policy reports for `c`.
pub open spec fn is_legacy_policy_error(c: LegacyConfig, allow_tailnet: bool, e: GatewayError) -> bool {
    match legacy_global_fault(c) {
        Some(rule) => e == GatewayError::LegacyPolicy { rule },
        None => {
            let i = first_faulty_legacy_from(c.backends@, allow_tailnet, 0);
            i < c.backends@.len() && (e matches GatewayError::LegacyBackendPolicy { name, rule }
                && name@ == c.backends@[i].name@ && Some(rule) == legacy_backend_fault(
                c.backends@[i],
                allow_tailnet,
            ))
        },
    }
}

fn global_fault(config: &LegacyConfig) -> (r: Option<LegacyRule>)
    ensures
        r == legacy_global_fault(*config),
{
    if !str_eq(config.listen_host.as_str(), "127.0.0.1") {
        return Some(LegacyRule::ListenerHost);
    }
    if !str_eq(config.separator.as_str(), "_") {
        return Some(LegacyRule::Separator);
    }
    if config.hot_reload {
        return Some(LegacyRule::HotReload);
    }
    match config.tool_exposure {
        LegacyToolExposure::Direct => {},
        LegacyToolExposure::Search => {
            return Some(LegacyRule::ToolExposure);
        },
    }
    if config.tool_discovery {
        return Some(LegacyRule::ToolDiscovery);
    }
    if config.has_rate_limit {
        return Some(LegacyRule::RateLimit);
    }
    if config.has_auth {
        return Some(LegacyRule::NorthboundAuth);
    }
    if config.has_admin_token {
        return Some(LegacyRule::AdminToken);
    }
    if config.coalesce_requests {
        return Some(LegacyRule::CoalesceRequests);
    }
    if config.composite_tools != 0 {
        return Some(LegacyRule::CompositeTools);
    }
    if !(str_eq(config.cache_backend.as_str(), INERT_CACHE_BACKEND) && config.cache_url.is_none()
        && str_eq(config.cache_prefix.as_str(), INERT_CACHE_PREFIX)) {
        return Some(LegacyRule::Cache);
    }
    let bound_ok = match config.max_argument_size {
        Some(n) => 1 <= n && n <= MAX_ARGUMENT_SIZE_BYTES,
        None => false,
    };
    if !bound_ok {
        return Some(LegacyRule::ArgumentBound);
    }
    if config.backends.len() == 0 {
        return Some(LegacyRule::NoBackends);
    }
    None
}

fn backend_fault(backend: &LegacyBackend, allow_tailnet: bool) -> (r: Option<LegacyBackendRule>)
    ensures
        r == legacy_backend_fault(*backend, allow_tailnet),
{
    match backend.transport {
        LegacyTransport::Http => {},
        _ => {
            return Some(LegacyBackendRule::NotHttp);
        },
    }
    let url: &str = match &backend.url {
        Some(u) => u.as_str(),
        None => "",
    };
    proof {
        if backend.url is None {
            reveal_strlit("");
            assert(url@ =~= Seq::<char>::empty());
        }
    }
    if !(is_exact_loopback_mcp_url(url) || (allow_tailnet && is_exact_tailnet_https_mcp_url(url))) {
        return Some(LegacyBackendRule::Endpoint);
    }
    if backend.has_retry {
        return Some(LegacyBackendRule::Retry);
    }
    if backend.has_hedging {
        return Some(LegacyBackendRule::Hedging);
    }
    if backend.has_cache {
        return Some(LegacyBackendRule::Cache);
    }
    if backend.has_circuit_breaker || backend.has_rate_limit || backend.has_concurrency
        || backend.has_outlier_detection {
        return Some(LegacyBackendRule::Middleware);
    }
    if backend.mirror_of.is_some() {
        return Some(LegacyBackendRule::Mirror);
    }
    if backend.failover_for.is_some() {
        return Some(LegacyBackendRule::Failover);
    }
    if backend.canary_of.is_some() {
        return Some(LegacyBackendRule::Canary);
    }
    if backend.forward_auth {
        return Some(LegacyBackendRule::ForwardAuth);
    }
    if !(backend.aliases == 0 && backend.default_args == 0 && backend.inject_args == 0
        && backend.param_overrides == 0 && backend.expose_tools == 0 && backend.hide_tools == 0
        && backend.expose_resources == 0 && backend.hide_resources == 0 && backend.expose_prompts
        == 0 && backend.hide_prompts == 0 && !backend.hide_destructive && !backend.read_only_only) {
        return Some(LegacyBackendRule::SurfaceRewriting);
    }
    None
}

/// Enforce the intentionally small v1 responsibility boundary on a legacy
/// configuration: loopback backends only.
pub fn validate_proxy_policy(config: &LegacyConfig) -> (r: Result<(), GatewayError>)
    ensures
        r is Ok <==> legacy_policy_ok(*config, false),
        r matches Err(e) ==> is_legacy_policy_error(*config, false, e),
{
    validate_proxy_policy_with_remote_backends(config, false)
}

/// The legacy policy for a runtime configuration derived from a validated
/// public configuration that opted into Tailscale HTTPS backends.
pub fn validate_proxy_policy_with_remote_backends(
    config: &LegacyConfig,
    allow_non_loopback_backends: bool,
) -> (r: Result<(), GatewayError>)
    ensures
        r is Ok <==> legacy_policy_ok(*config, allow_non_loopback_backends),
        r matches Err(e) ==> is_legacy_policy_error(*config, allow_non_loopback_backends, e),
{
    match global_fault(config) {
        Some(rule) => return Err(GatewayError::LegacyPolicy { rule }),
        None => {},
    }
    let ghost bs = config.backends@;
    let allow = allow_non_loopback_backends;
    proof {
        lemma_first_faulty_legacy_from(bs, allow, 0);
    }
    let n = config.backends.len();
    let mut i: usize = 0;
    while i < n
        invariant
            n == bs.len(),
            bs == config.backends@,
            allow == allow_non_loopback_backends,
            i <= n,
            legacy_global_fault(*config) is None,
            first_faulty_legacy_from(bs, allow, 0) == first_faulty_legacy_from(bs, allow, i as int),
        decreases n - i,
    {
        let b = &config.backends[i];
        match backend_fault(b, allow) {
            Some(rule) => {
                assert(first_faulty_legacy_from(bs, allow, i as int) == i);
                return Err(GatewayError::LegacyBackendPolicy { name: b.name.clone(), rule });
            },
            None => {},
        }
        i = i + 1;
    }
    Ok(())
}

/// `a` and `b` have the same global settings (everything but backends).
pub open spec fn same_settings(a: LegacyConfig, b: LegacyConfig) -> bool {
    &&& a.name == b.name
    &&& a.version == b.version
    &&& a.separator == b.separator
    &&& a.listen_host == b.listen_host
    &&& a.listen_port == b.listen_port
    &&& a.instructions == b.instructions
    &&& a.shutdown_timeout_seconds == b.shutdown_timeout_seconds
    &&& a.hot_reload == b.hot_reload
    &&& a.tool_exposure == b.tool_exposure
    &&& a.tool_discovery == b.tool_discovery
    &&& a.has_rate_limit == b.has_rate_limit
    &&& a.has_auth == b.has_auth
    &&& a.has_admin_token == b.has_admin_token
    &&& a.coalesce_requests == b.coalesce_requests
    &&& a.composite_tools == b.composite_tools
    &&& a.cache_backend == b.cache_backend
    &&& a.cache_url == b.cache_url
    &&& a.cache_prefix == b.cache_prefix
    &&& a.max_argument_size == b.max_argument_size
    &&& a.audit == b.audit
    &&& a.log_level == b.log_level
    &&& a.json_logs == b.json_logs
}

/// A backend that configures a circuit breaker, a rate limit, a
/// concurrency limit or outlier detection (middleware beyond a timeout)
/// makes the legacy policy reject the whole configuration.
pub proof fn law_middleware_backend_is_rejected(c: LegacyConfig, allow_tailnet: bool, i: int)
    requires
        0 <= i < c.backends@.len(),
        c.backends@[i].has_circuit_breaker || c.backends@[i].has_rate_limit
            || c.backends@[i].has_concurrency || c.backends@[i].has_outlier_detection,
    ensures
        !legacy_policy_ok(c, allow_tailnet),
{
    lemma_first_faulty_legacy_from(c.backends@, allow_tailnet, 0);
}

/// A backend that renames, filters, hides or rewrites any part of the
/// backend's tools, resources or prompts makes the legacy policy reject
/// the whole configuration.
pub proof fn law_surface_rewriting_backend_is_rejected(c: LegacyConfig, allow_tailnet: bool, i: int)
    requires
        0 <= i < c.backends@.len(),
        ({
            let b = c.backends@[i];
            b.aliases != 0 || b.default_args != 0 || b.inject_args != 0 || b.param_overrides != 0
                || b.expose_tools != 0 || b.hide_tools != 0 || b.expose_resources != 0
                || b.hide_resources != 0 || b.expose_prompts != 0 || b.hide_prompts != 0
                || b.hide_destructive || b.read_only_only
        }),
    ensures
        !legacy_policy_ok(c, allow_tailnet),
{
    lemma_first_faulty_legacy_from(c.backends@, allow_tailnet, 0);
}

/// In an accepted configuration, the first faulty backend of a copy that
/// changes only backend `i` into a faulty one is backend `i`.
proof fn lemma_only_changed_backend_faults(
    c: LegacyConfig,
    c2: LegacyConfig,
    allow_tailnet: bool,
    i: int,
)
    requires
        legacy_policy_ok(c, allow_tailnet),
        same_settings(c, c2),
        0 <= i < c.backends@.len(),
        c2.backends@.len() == c.backends@.len(),
        forall|k: int| 0 <= k < c.backends@.len() && k != i ==> c2.backends@[k] == c.backends@[k],
        legacy_backend_fault(c2.backends@[i], allow_tailnet) is Some,
    ensures
        legacy_global_fault(c2) is None,
        first_faulty_legacy_from(c2.backends@, allow_tailnet, 0) == i,
{
    lemma_first_faulty_legacy_from(c.backends@, allow_tailnet, 0);
    lemma_first_faulty_legacy_from(c2.backends@, allow_tailnet, 0);
    let f = first_faulty_legacy_from(c2.backends@, allow_tailnet, 0);
    if f < i {
        assert(c2.backends@[f] == c.backends@[f]);
    }
}

/// Turning on middleware beyond a timeout (a circuit breaker, a rate
/// limit, a concurrency limit or outlier detection) on one backend of an
/// accepted configuration makes the policy refuse it with exactly one
/// error: the middleware rule, naming that backend.
pub proof fn law_added_middleware_names_the_backend(
    c: LegacyConfig,
    c2: LegacyConfig,
    allow_tailnet: bool,
    i: int,
    circuit_breaker: bool,
    rate_limit: bool,
    concurrency: bool,
    outlier_detection: bool,
    e: GatewayError,
)
    requires
        legacy_policy_ok(c, allow_tailnet),
        same_settings(c, c2),
        0 <= i < c.backends@.len(),
        circuit_breaker || rate_limit || concurrency || outlier_detection,
        c2.backends@ == c.backends@.update(
            i,
            LegacyBackend {
                has_circuit_breaker: circuit_breaker,
                has_rate_limit: rate_limit,
                has_concurrency: concurrency,
                has_outlier_detection: outlier_detection,
                ..c.backends@[i]
            },
        ),
    ensures
        !legacy_policy_ok(c2, allow_tailnet),
        is_legacy_policy_error(c2, allow_tailnet, e) <==> (e matches GatewayError::LegacyBackendPolicy {
            name,
            rule,
        } && name@ == c.backends@[i].name@ && rule == LegacyBackendRule::Middleware),
{
    lemma_first_faulty_legacy_from(c.backends@, allow_tailnet, 0);
    assert(legacy_backend_fault(c.backends@[i], allow_tailnet) is None);
    lemma_only_changed_backend_faults(c, c2, allow_tailnet, i);
}

/// Turning on any renaming, filtering, hiding or rewriting of one
/// backend's surface in an accepted configuration makes the policy refuse
/// it with exactly one error: the surface-rewriting rule, naming that
/// backend.
pub proof fn law_added_surface_rewriting_names_the_backend(
    c: LegacyConfig,
    c2: LegacyConfig,
    allow_tailnet: bool,
    i: int,
    counts: (usize, usize, usize, usize, usize, usize, usize, usize, usize, usize),
    hide_destructive: bool,
    read_only_only: bool,
    e: GatewayError,
)
    requires
        legacy_policy_ok(c, allow_tailnet),
        same_settings(c, c2),
        0 <= i < c.backends@.len(),
        counts.0 != 0 || counts.1 != 0 || counts.2 != 0 || counts.3 != 0 || counts.4 != 0
            || counts.5 != 0 || counts.6 != 0 || counts.7 != 0 || counts.8 != 0 || counts.9 != 0
            || hide_destructive || read_only_only,
        c2.backends@ == c.backends@.update(
            i,
            LegacyBackend {
                aliases: counts.0,
                default_args: counts.1,
                inject_args: counts.2,
                param_overrides: counts.3,
                expose_tools: counts.4,
                hide_tools: counts.5,
                expose_resources: counts.6,
                hide_resources: counts.7,
                expose_prompts: counts.8,
                hide_prompts: counts.9,
                hide_destructive,
                read_only_only,
                ..c.backends@[i]
            },
        ),
    ensures
        !legacy_policy_ok(c2, allow_tailnet),
        is_legacy_policy_error(c2, allow_tailnet, e) <==> (e matches GatewayError::LegacyBackendPolicy {
            name,
            rule,
        } && name@ == c.backends@[i].name@ && rule == LegacyBackendRule::SurfaceRewriting),
{
    lemma_first_faulty_legacy_from(c.backends@, allow_tailnet, 0);
    assert(legacy_backend_fault(c.backends@[i], allow_tailnet) is None);
    lemma_only_changed_backend_faults(c, c2, allow_tailnet, i);
}

/// A backend that is not plain HTTP, retries or hedges calls, caches
/// results, mirrors, fails over to or canaries another backend, or
/// forwards client auth makes the legacy policy reject the whole
/// configuration.
pub proof fn law_forbidden_backend_feature_is_rejected(c: LegacyConfig, allow_tailnet: bool, i: int)
    requires
        0 <= i < c.backends@.len(),
        ({
            let b = c.backends@[i];
            b.transport != LegacyTransport::Http || b.has_retry || b.has_hedging || b.has_cache
                || b.mirror_of is Some || b.failover_for is Some || b.canary_of is Some
                || b.forward_auth
        }),
    ensures
        !legacy_policy_ok(c, allow_tailnet),
{
    lemma_first_faulty_legacy_from(c.backends@, allow_tailnet, 0);
}

/// A configuration is rejected when it listens anywhere but 127.0.0.1,
/// uses a separator other than `_`, reloads on change, exposes tools
/// through search or discovery, rate-limits or authenticates clients,
/// serves an admin plane, coalesces requests, defines composite tools,
/// configures a non-inert cache, leaves the argument size unbounded or
/// above 1048576 bytes, or has no backend.
pub proof fn law_forbidden_global_setting_is_rejected(c: LegacyConfig, allow_tailnet: bool)
    requires
        c.listen_host@ != "127.0.0.1"@ || c.separator@ != "_"@ || c.hot_reload
            || c.tool_exposure == LegacyToolExposure::Search || c.tool_discovery
            || c.has_rate_limit || c.has_auth || c.has_admin_token || c.coalesce_requests
            || c.composite_tools != 0 || c.cache_backend@ != "memory"@ || c.cache_url is Some
            || c.cache_prefix@ != "mcp-proxy:"@ || c.max_argument_size is None || (
        c.max_argument_size matches Some(n) && (n == 0 || n > 1048576)) || c.backends@.len() == 0,
    ensures
        !legacy_policy_ok(c, allow_tailnet),
{
    reveal_strlit("memory");
    reveal_strlit("mcp-proxy:");
}

} // verus!
