//! Migration adapters between the legacy deployment configuration and the
//! public schema.
//!
//! The reference deployment remains a first-class citizen: its
//! configuration validates under the deployment policy and maps to the
//! public model. Migration is a pure in-memory transformation that never copies
//! private values (tokens, middleware settings) into public files.

use vstd::prelude::*;
use vstd::string::*;

use crate::config::legacy::{
    legacy_global_fault, legacy_policy_ok, legacy_url, first_faulty_legacy_from,
    lemma_first_faulty_legacy_from, legacy_backend_fault, LegacyBackend, LegacyConfig,
    LegacyToolExposure, LegacyTransport, INERT_CACHE_BACKEND, INERT_CACHE_PREFIX,
};
use crate::config::model::{
    BackendEntry, GatewayConfig, ObservabilityConfig, PolicyConfig, ServerConfig,
    DEFAULT_BACKEND_TIMEOUT_SECONDS,
};
use crate::config::validate::{
    config_valid, entry_fault, first_faulty_entry_from, is_loopback_mcp_url, is_validation_error,
    lemma_first_faulty_entry_from, prefix_rule_violated, validate, validate_backend_url,
    LOOPBACK_HOST, MAX_ARGUMENT_SIZE_BYTES, SCHEMA_VERSION,
};
use crate::error::{GatewayError, PrefixRule};
use crate::namespace::normalize::{mcp_name_from_prefix, mcp_name_spec, NAMESPACE_SEPARATOR};
use crate::text::{opt_view, str_eq};

verus! {

/// Server name the gateway reports for itself during MCP initialization.
pub const DEFAULT_SERVER_NAME: &'static str = "lomway";

/// Version string the gateway reports for itself.
pub const GATEWAY_VERSION: &'static str = "0.1.0";

/// Why a legacy backend cannot be mapped onto the public schema.
#[derive(Debug, Clone, Copy, PartialEq, Eq)]
pub enum MigrateRule {
    /// The backend does not use HTTP.
    NotHttp,
    /// The backend URL is not an exact loopback `/mcp` endpoint.
    Url,
}

/// The first reason `b` cannot be migrated, if any.
pub open spec fn migrate_fault(b: LegacyBackend) -> Option<MigrateRule> {
    if b.transport != LegacyTransport::Http {
        Some(MigrateRule::NotHttp)
    } else if !is_loopback_mcp_url(legacy_url(b)) {
        Some(MigrateRule::Url)
    } else {
        None
    }
}

/// First index at or after `i` whose backend cannot be migrated.
pub open spec fn first_unmigratable_from(bs: Seq<LegacyBackend>, i: int) -> int
    decreases bs.len() - i,
{
    if i < 0 || i >= bs.len() {
        bs.len() as int
    } else if migrate_fault(bs[i]) is Some {
        i
    } else {
        first_unmigratable_from(bs, i + 1)
    }
}

pub proof fn lemma_first_unmigratable_from(bs: Seq<LegacyBackend>, i: int)
    requires
        0 <= i <= bs.len(),
    ensures
        i <= first_unmigratable_from(bs, i) <= bs.len(),
        first_unmigratable_from(bs, i) < bs.len() ==> migrate_fault(
            bs[first_unmigratable_from(bs, i)],
        ) is Some,
        forall|k: int|
            i <= k < first_unmigratable_from(bs, i) ==> migrate_fault(#[trigger] bs[k]) is None,
    decreases bs.len() - i,
{
    if i < bs.len() && migrate_fault(bs[i]) is None {
        lemma_first_unmigratable_from(bs, i + 1);
    }
}

/// `legacy` can be mapped onto the public schema.
pub open spec fn migratable(legacy: LegacyConfig) -> bool {
    legacy.separator@ == NAMESPACE_SEPARATOR@ && first_unmigratable_from(legacy.backends@, 0)
        == legacy.backends@.len()
}

/// `e` is the error that migrating `legacy` reports.
pub open spec fn is_migrate_error(legacy: LegacyConfig, e: GatewayError) -> bool {
    if legacy.separator@ != NAMESPACE_SEPARATOR@ {
        e == GatewayError::MigrateSeparator
    } else {
        let i = first_unmigratable_from(legacy.backends@, 0);
        let b = legacy.backends@[i];
        i < legacy.backends@.len() && match migrate_fault(b) {
            Some(MigrateRule::NotHttp) => e matches GatewayError::MigrateNotHttp { name } && name@
                == b.name@,
            Some(MigrateRule::Url) => e matches GatewayError::MigrateUrl { name, url } && name@
                == b.name@ && url@ == legacy_url(b),
            None => false,
        }
    }
}

/// The public entry a legacy backend maps to: its name as id, the name
/// plus the separator as prefix, the same URL, optional (degrade on
/// outage), and its timeout or the default.
pub open spec fn entry_migrated_from(e: BackendEntry, b: LegacyBackend) -> bool {
    &&& e.id@ == b.name@
    &&& e.prefix@ == b.name@ + NAMESPACE_SEPARATOR@
    &&& e.url@ == legacy_url(b)
    &&& !e.required
    &&& e.timeout_seconds == match b.timeout_seconds {
        Some(t) => t,
        None => DEFAULT_BACKEND_TIMEOUT_SECONDS,
    }
}

/// The public configuration a legacy one maps to.
pub open spec fn public_migrated_from(p: GatewayConfig, l: LegacyConfig) -> bool {
    &&& p.schema_version == SCHEMA_VERSION
    &&& p.server.host@ == l.listen_host@
    &&& p.server.port == l.listen_port
    &&& opt_view(p.server.instructions) == opt_view(l.instructions)
    &&& p.server.shutdown_timeout_seconds == l.shutdown_timeout_seconds
    &&& !p.policy.allow_non_loopback_listener
    &&& !p.policy.allow_non_loopback_backends
    &&& !p.policy.hot_reload
    &&& p.policy.max_argument_size_bytes == match l.max_argument_size {
        Some(n) => n,
        None => MAX_ARGUMENT_SIZE_BYTES,
    }
    &&& p.observability.audit == l.audit
    &&& p.observability.log_level@ == l.log_level@
    &&& p.observability.json_logs == l.json_logs
    &&& p.backends@.len() == l.backends@.len()
    &&& forall|i: int|
        0 <= i < l.backends@.len() ==> entry_migrated_from(
            #[trigger] p.backends@[i],
            l.backends@[i],
        )
}

/// The legacy backend a public entry maps to: named by the prefix stem,
/// HTTP at the same URL with the same timeout, and every middleware,
/// rewriting, fan-out and credential feature absent.
pub open spec fn backend_derived_from(b: LegacyBackend, e: BackendEntry) -> bool {
    &&& mcp_name_spec(e.prefix@) == Some(b.name@)
    &&& b.transport == LegacyTransport::Http
    &&& b.url matches Some(u) && u@ == e.url@
    &&& b.timeout_seconds == Some(e.timeout_seconds)
    &&& b.bearer_token is None
    &&& !b.has_circuit_breaker && !b.has_rate_limit && !b.has_concurrency && !b.has_retry
    &&& !b.has_outlier_detection && !b.has_hedging && !b.has_cache
    &&& b.mirror_of is None && b.failover_for is None && b.canary_of is None
    &&& !b.forward_auth
    &&& b.aliases == 0 && b.default_args == 0 && b.inject_args == 0 && b.param_overrides == 0
    &&& b.expose_tools == 0 && b.hide_tools == 0 && b.expose_resources == 0
    &&& b.hide_resources == 0 && b.expose_prompts == 0 && b.hide_prompts == 0
    &&& !b.hide_destructive && !b.read_only_only
}

/// The legacy configuration a public one maps to: only the safe subset,
/// with every feature outside it at its inert default.
pub open spec fn legacy_derived_from(l: LegacyConfig, p: GatewayConfig) -> bool {
    &&& l.name@ == DEFAULT_SERVER_NAME@
    &&& l.version@ == GATEWAY_VERSION@
    &&& l.separator@ == NAMESPACE_SEPARATOR@
    &&& l.listen_host@ == p.server.host@
    &&& l.listen_port == p.server.port
    &&& opt_view(l.instructions) == opt_view(p.server.instructions)
    &&& l.shutdown_timeout_seconds == p.server.shutdown_timeout_seconds
    &&& !l.hot_reload
    &&& l.tool_exposure == LegacyToolExposure::Direct
    &&& !l.tool_discovery
    &&& !l.has_rate_limit
    &&& !l.has_auth
    &&& !l.has_admin_token
    &&& !l.coalesce_requests
    &&& l.composite_tools == 0
    &&& l.cache_backend@ == INERT_CACHE_BACKEND@
    &&& l.cache_url is None
    &&& l.cache_prefix@ == INERT_CACHE_PREFIX@
    &&& l.max_argument_size == Some(p.policy.max_argument_size_bytes)
    &&& l.audit == p.observability.audit
    &&& l.log_level@ == p.observability.log_level@
    &&& l.json_logs == p.observability.json_logs
    &&& l.backends@.len() == p.backends@.len()
    &&& forall|i: int|
        0 <= i < p.backends@.len() ==> backend_derived_from(
            #[trigger] l.backends@[i],
            p.backends@[i],
        )
}

fn clone_opt(o: &Option<String>) -> (r: Option<String>)
    ensures
        opt_view(r) == opt_view(*o),
{
    match o {
        Some(s) => Some(s.clone()),
        None => None,
    }
}

/// Map a legacy deployment configuration to the public schema.
///
/// Callers apply the legacy policy first; migration maps the safe subset
/// and preserves the deployment's degrade-on-outage behavior by marking
/// migrated backends `required = false`.
pub fn to_public(legacy: &LegacyConfig) -> (r: Result<GatewayConfig, GatewayError>)
    ensures
        r is Ok <==> migratable(*legacy),
        r matches Ok(p) ==> public_migrated_from(p, *legacy),
        r matches Err(e) ==> is_migrate_error(*legacy, e),
{
    if !str_eq(legacy.separator.as_str(), NAMESPACE_SEPARATOR) {
        return Err(GatewayError::MigrateSeparator);
    }
    let ghost bs = legacy.backends@;
    proof {
        lemma_first_unmigratable_from(bs, 0);
    }
    let n = legacy.backends.len();
    let mut backends: Vec<BackendEntry> = Vec::new();
    let mut i: usize = 0;
    while i < n
        invariant
            n == bs.len(),
            bs == legacy.backends@,
            legacy.separator@ == NAMESPACE_SEPARATOR@,
            i <= n,
            first_unmigratable_from(bs, 0) == first_unmigratable_from(bs, i as int),
            backends@.len() == i,
            forall|k: int| 0 <= k < i ==> entry_migrated_from(#[trigger] backends@[k], bs[k]),
        decreases n - i,
    {
        let b = &legacy.backends[i];
        match b.transport {
            LegacyTransport::Http => {},
            _ => {
                assert(first_unmigratable_from(bs, i as int) == i);
                return Err(GatewayError::MigrateNotHttp { name: b.name.clone() });
            },
        }
        let url = match &b.url {
            Some(u) => u.clone(),
            None => String::new(),
        };
        assert(url@ == legacy_url(*b));
        match validate_backend_url(url.as_str()) {
            Ok(()) => {},
            Err(_) => {
                assert(first_unmigratable_from(bs, i as int) == i);
                return Err(GatewayError::MigrateUrl { name: b.name.clone(), url });
            },
        }
        let mut prefix = b.name.clone();
        prefix.append(NAMESPACE_SEPARATOR);
        let timeout_seconds = match b.timeout_seconds {
            Some(t) => t,
            None => DEFAULT_BACKEND_TIMEOUT_SECONDS,
        };
        backends.push(
            BackendEntry { id: b.name.clone(), prefix, url, required: false, timeout_seconds },
        );
        i = i + 1;
    }
    let max_argument_size_bytes = match legacy.max_argument_size {
        Some(n) => n,
        None => MAX_ARGUMENT_SIZE_BYTES,
    };
    Ok(
        GatewayConfig {
            schema_version: SCHEMA_VERSION,
            server: ServerConfig {
                host: legacy.listen_host.clone(),
                port: legacy.listen_port,
                instructions: clone_opt(&legacy.instructions),
                shutdown_timeout_seconds: legacy.shutdown_timeout_seconds,
            },
            policy: PolicyConfig {
                allow_non_loopback_listener: false,
                allow_non_loopback_backends: false,
                hot_reload: false,
                max_argument_size_bytes,
            },
            observability: ObservabilityConfig {
                audit: legacy.audit,
                log_level: legacy.log_level.clone(),
                json_logs: legacy.json_logs,
            },
            backends,
        },
    )
}

/// Construct the legacy configuration implied by a validated public
/// configuration. Only the safe subset is ever emitted; every middleware,
/// rewriting, fan-out, and auth feature stays at its inert default.
pub fn to_legacy(public: &GatewayConfig) -> (r: Result<LegacyConfig, GatewayError>)
    ensures
        r is Ok <==> config_valid(*public),
        r matches Ok(l) ==> legacy_derived_from(l, *public),
        r matches Err(e) ==> is_validation_error(*public, e),
{
    match validate(public) {
        Err(e) => return Err(e),
        Ok(()) => {},
    }
    let ghost ps = public.backends@;
    let allow = public.policy.allow_non_loopback_backends;
    proof {
        lemma_first_faulty_entry_from(ps, allow, 0);
    }
    let n = public.backends.len();
    let mut backends: Vec<LegacyBackend> = Vec::new();
    let mut i: usize = 0;
    while i < n
        invariant
            n == ps.len(),
            ps == public.backends@,
            allow == public.policy.allow_non_loopback_backends,
            config_valid(*public),
            forall|k: int| 0 <= k < n ==> entry_fault(#[trigger] ps[k], allow) is None,
            i <= n,
            backends@.len() == i,
            forall|k: int| 0 <= k < i ==> backend_derived_from(#[trigger] backends@[k], ps[k]),
        decreases n - i,
    {
        let entry = &public.backends[i];
        assert(entry_fault(ps[i as int], allow) is None);
        let name = match mcp_name_from_prefix(entry.prefix.as_str()) {
            Some(name) => String::from_str(name),
            None => {
                proof {
                    assert(prefix_rule_violated(entry.prefix@) is None);
                    assert(false);
                }
                return Err(
                    GatewayError::InvalidBackendPrefix {
                        prefix: entry.prefix.clone(),
                        rule: PrefixRule::EmptyStem,
                    },
                );
            },
        };
        backends.push(
            LegacyBackend {
                name,
                transport: LegacyTransport::Http,
                url: Some(entry.url.clone()),
                timeout_seconds: Some(entry.timeout_seconds),
                bearer_token: None,
                has_circuit_breaker: false,
                has_rate_limit: false,
                has_concurrency: false,
                has_retry: false,
                has_outlier_detection: false,
                has_hedging: false,
                has_cache: false,
                mirror_of: None,
                failover_for: None,
                canary_of: None,
                forward_auth: false,
                aliases: 0,
                default_args: 0,
                inject_args: 0,
                param_overrides: 0,
                expose_tools: 0,
                hide_tools: 0,
                expose_resources: 0,
                hide_resources: 0,
                expose_prompts: 0,
                hide_prompts: 0,
                hide_destructive: false,
                read_only_only: false,
            },
        );
        i = i + 1;
    }
    Ok(
        LegacyConfig {
            name: String::from_str(DEFAULT_SERVER_NAME),
            version: String::from_str(GATEWAY_VERSION),
            separator: String::from_str(NAMESPACE_SEPARATOR),
            listen_host: public.server.host.clone(),
            listen_port: public.server.port,
            instructions: clone_opt(&public.server.instructions),
            shutdown_timeout_seconds: public.server.shutdown_timeout_seconds,
            hot_reload: false,
            tool_exposure: LegacyToolExposure::Direct,
            tool_discovery: false,
            has_rate_limit: false,
            has_auth: false,
            has_admin_token: false,
            coalesce_requests: false,
            composite_tools: 0,
            cache_backend: String::from_str(INERT_CACHE_BACKEND),
            cache_url: None,
            cache_prefix: String::from_str(INERT_CACHE_PREFIX),
            max_argument_size: Some(public.policy.max_argument_size_bytes),
            audit: public.observability.audit,
            log_level: public.observability.log_level.clone(),
            json_logs: public.observability.json_logs,
            backends,
        },
    )
}

/// A valid public configuration with at least one backend maps to a
/// legacy configuration that the legacy policy accepts, with the same
/// Tailscale opt-in; with no opt-in, the loopback-only legacy policy
/// accepts it.
pub proof fn law_derived_legacy_passes_policy(p: GatewayConfig, l: LegacyConfig)
    requires
        config_valid(p),
        p.backends@.len() > 0,
        legacy_derived_from(l, p),
    ensures
        legacy_policy_ok(l, p.policy.allow_non_loopback_backends),
        !p.policy.allow_non_loopback_backends ==> legacy_policy_ok(l, false),
{
    let allow = p.policy.allow_non_loopback_backends;
    reveal_strlit("127.0.0.1");
    reveal_strlit("_");
    assert(LOOPBACK_HOST@ == "127.0.0.1"@);
    assert(legacy_global_fault(l) is None);
    lemma_first_faulty_entry_from(p.backends@, allow, 0);
    lemma_first_faulty_legacy_from(l.backends@, allow, 0);
    assert forall|k: int| 0 <= k < l.backends@.len() implies legacy_backend_fault(
        #[trigger] l.backends@[k],
        allow,
    ) is None by {
        assert(entry_fault(p.backends@[k], allow) is None);
        assert(backend_derived_from(l.backends@[k], p.backends@[k]));
        assert(legacy_url(l.backends@[k]) == p.backends@[k].url@);
    }
}

/// Every configuration the loopback-only legacy policy accepts can be
/// migrated to the public schema: the policy already demands the `_`
/// separator, HTTP transport and exact loopback `/mcp` endpoints.
pub proof fn law_legacy_policy_implies_migratable(l: LegacyConfig)
    requires
        legacy_policy_ok(l, false),
    ensures
        migratable(l),
{
    reveal_strlit("_");
    lemma_first_faulty_legacy_from(l.backends@, false, 0);
    lemma_first_unmigratable_from(l.backends@, 0);
    assert forall|k: int| 0 <= k < l.backends@.len() implies migrate_fault(
        #[trigger] l.backends@[k],
    ) is None by {
        assert(legacy_backend_fault(l.backends@[k], false) is None);
    }
}

/// Mapping a valid loopback-only public configuration to the legacy schema
/// and back keeps every backend's prefix, URL and timeout, the listener,
/// the argument bound and the log settings; each backend's id becomes its
/// prefix stem and every backend becomes optional. Migration never invents
/// or drops backends.
pub proof fn law_round_trip_through_legacy(p: GatewayConfig, l: LegacyConfig, q: GatewayConfig)
    requires
        config_valid(p),
        !p.policy.allow_non_loopback_backends,
        legacy_derived_from(l, p),
        public_migrated_from(q, l),
    ensures
        migratable(l),
        q.backends@.len() == p.backends@.len(),
        forall|i: int|
            0 <= i < p.backends@.len() ==> {
                &&& (#[trigger] q.backends@[i]).prefix@ == p.backends@[i].prefix@
                &&& q.backends@[i].url@ == p.backends@[i].url@
                &&& q.backends@[i].timeout_seconds == p.backends@[i].timeout_seconds
                &&& mcp_name_spec(p.backends@[i].prefix@) == Some(q.backends@[i].id@)
                &&& !q.backends@[i].required
            },
        q.server.host@ == p.server.host@,
        q.server.port == p.server.port,
        opt_view(q.server.instructions) == opt_view(p.server.instructions),
        q.server.shutdown_timeout_seconds == p.server.shutdown_timeout_seconds,
        q.policy.max_argument_size_bytes == p.policy.max_argument_size_bytes,
        q.observability.audit == p.observability.audit,
        q.observability.log_level@ == p.observability.log_level@,
        q.observability.json_logs == p.observability.json_logs,
{
    let allow = p.policy.allow_non_loopback_backends;
    reveal_strlit("_");
    lemma_first_faulty_entry_from(p.backends@, allow, 0);
    lemma_first_unmigratable_from(l.backends@, 0);
    assert forall|k: int| 0 <= k < l.backends@.len() implies migrate_fault(
        #[trigger] l.backends@[k],
    ) is None by {
        assert(entry_fault(p.backends@[k], allow) is None);
        assert(backend_derived_from(l.backends@[k], p.backends@[k]));
    }
    assert forall|i: int| 0 <= i < p.backends@.len() implies {
        &&& (#[trigger] q.backends@[i]).prefix@ == p.backends@[i].prefix@
        &&& q.backends@[i].url@ == p.backends@[i].url@
        &&& q.backends@[i].timeout_seconds == p.backends@[i].timeout_seconds
        &&& mcp_name_spec(p.backends@[i].prefix@) == Some(q.backends@[i].id@)
        &&& !q.backends@[i].required
    } by {
        let e = p.backends@[i];
        let b = l.backends@[i];
        assert(entry_fault(e, allow) is None);
        assert(backend_derived_from(b, e));
        assert(entry_migrated_from(q.backends@[i], b));
        assert(e.prefix@.drop_last() + NAMESPACE_SEPARATOR@ =~= e.prefix@);
    }
}

} // verus!
