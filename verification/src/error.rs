//! The library's error type.
//!
//! Every fallible operation returns a variant that names the violated rule
//! and carries the offending values, so callers can match on the cause and
//! contracts can say exactly which error an input produces.

use vstd::prelude::*;

use crate::config::legacy::{LegacyBackendRule, LegacyRule};
use crate::text::{debug_quoted, debug_str, decimal, join_with, joined, owned, render_decimal, string_views};

verus! {

/// Which backend-id rule an id violates (checked in this order).
#[derive(Debug, Clone, Copy, PartialEq, Eq)]
pub enum IdRule {
    /// The id is empty.
    Empty,
    /// The id is longer than 64 bytes.
    TooLong,
    /// The first character is not a lowercase letter or digit.
    BadStart,
    /// A character outside `a-z 0-9 '_' '-'`.
    BadChar,
}

/// Which namespace-prefix rule a prefix violates (checked in this order).
#[derive(Debug, Clone, Copy, PartialEq, Eq)]
pub enum PrefixRule {
    /// The prefix is empty.
    Empty,
    /// The prefix is longer than 64 bytes.
    TooLong,
    /// The prefix does not end with the `_` separator.
    MissingSeparator,
    /// Nothing precedes the trailing `_`.
    EmptyStem,
    /// A character outside `a-z 0-9 '_' '-'` before the trailing `_`.
    BadChar,
    /// The prefix is reserved for gateway control planes.
    Reserved,
}

/// Errors of the gateway library.
#[derive(Debug, Clone, PartialEq, Eq)]
pub enum GatewayError {
    /// `schema_version` is not the supported version.
    UnsupportedSchemaVersion { found: u32 },
    /// `server.host` is not exactly `127.0.0.1`.
    NonLoopbackListener,
    /// `server.port` is zero.
    ZeroListenerPort,
    /// `policy.allow_non_loopback_listener` is set.
    NonLoopbackListenerPolicy,
    /// `policy.allow_non_loopback_backends` is set but no backend uses the
    /// Tailscale HTTPS profile it exists for.
    NonLoopbackBackendsPolicy,
    /// `policy.hot_reload` is set.
    HotReloadPolicy,
    /// `policy.max_argument_size_bytes` is outside `1..=1048576`.
    ArgumentSizeOutOfRange,
    /// Two backends share an id.
    DuplicateBackendId { id: String },
    /// Two backends share a prefix.
    DuplicateBackendPrefix { prefix: String },
    /// A backend id violates the id rules.
    InvalidBackendId { id: String, rule: IdRule },
    /// A namespace prefix violates the prefix rules.
    InvalidBackendPrefix { prefix: String, rule: PrefixRule },
    /// A URL is not an exact loopback `http://127.0.0.1:<port>/mcp` endpoint.
    InvalidBackendUrl { url: String },
    /// A configured backend's URL is not an allowed endpoint.
    BackendUrlNotAllowed { id: String, url: String },
    /// A backend timeout is outside `1..=300` seconds.
    BackendTimeoutOutOfRange { id: String },
    /// A legacy configuration violates a global policy rule.
    LegacyPolicy { rule: LegacyRule },
    /// A legacy backend violates a per-backend policy rule.
    LegacyBackendPolicy { name: String, rule: LegacyBackendRule },
    /// A legacy configuration's separator is not `_`.
    MigrateSeparator,
    /// A legacy backend does not use HTTP and cannot be migrated.
    MigrateNotHttp { name: String },
    /// A legacy backend URL is not a loopback `/mcp` endpoint.
    MigrateUrl { name: String, url: String },
    /// A migration would write over its own input file.
    MigrateInPlace { output: String },
    /// A migration would write over an existing file.
    MigrateOutputExists { output: String },
    /// The file to migrate is already in the public schema.
    MigrateAlreadyPublic { input: String },
    /// No backend is configured at startup; the gateway fails closed.
    NoBackendsConfigured,
    /// Required backends failed their startup probe (ids in order).
    RequiredBackendsUnavailable { ids: Vec<String> },
    /// Every configured backend failed its startup probe (ids in order).
    AllBackendsUnavailable { ids: Vec<String> },
    /// A configuration file is not valid TOML; `detail` is the parser's
    /// account of the fault.
    InvalidToml { detail: String },
    /// A `${` without a closing `}` in a value that allows references.
    UnterminatedEnvRef { input: String },
    /// A `${}` reference with an empty name.
    EmptyEnvRef { input: String },
    /// A `${NAME}` reference whose variable is not set.
    UnresolvedEnvRef { name: String },
    /// A reference template expands to a different URL than the one
    /// validated, so a written file would not reload identically.
    TemplateMismatch { id: String },
    /// `LOMWAY_CONFIG` names a file that does not exist.
    ConfigEnvPathMissing { path: String },
    /// No explicit path, no `LOMWAY_CONFIG`, and no default candidate.
    NoConfigFound,
    /// Two upstream tools map to the same final tool name.
    ToolNameCollision {
        public_name: String,
        first_backend: String,
        first_upstream: String,
        second_backend: String,
        second_upstream: String,
    },
}


/// Text of a backend-id rule violation for `id`.
pub open spec fn id_rule_text(id: Seq<char>, rule: IdRule) -> Seq<char> {
    match rule {
        IdRule::Empty => "backend id must not be empty"@,
        IdRule::TooLong => "backend id must be at most 64 characters: "@ + debug_str(id),
        IdRule::BadStart => "backend id "@ + debug_str(id)
            + " must start with a lowercase letter or digit (a-z 0-9 '_' '-' (must start with a letter or digit)); ambiguous ids are rejected, not normalized"@,
        IdRule::BadChar => "backend id "@ + debug_str(id)
            + " may only contain lowercase letters, digits, '_' and '-' (a-z 0-9 '_' '-' (must start with a letter or digit)); ambiguous ids are rejected, not normalized"@,
    }
}

/// Text of a namespace-prefix rule violation for `prefix`.
pub open spec fn prefix_rule_text(prefix: Seq<char>, rule: PrefixRule) -> Seq<char> {
    match rule {
        PrefixRule::Empty => "backend prefix must not be empty in this release"@,
        PrefixRule::TooLong => "backend prefix must be at most 64 characters: "@ + debug_str(prefix),
        PrefixRule::MissingSeparator => "backend prefix "@ + debug_str(prefix)
            + " must end with the '_' namespace separator; ambiguous prefixes are rejected, not normalized"@,
        PrefixRule::EmptyStem => "backend prefix "@ + debug_str(prefix)
            + " must contain at least one character before '_'"@,
        PrefixRule::BadChar => "backend prefix "@ + debug_str(prefix)
            + " may only contain lowercase letters, digits, '_' and '-' (a-z 0-9 '_' '-' (must end with '_')); ambiguous prefixes are rejected, not normalized"@,
        PrefixRule::Reserved => "backend prefix "@ + debug_str(prefix)
            + " is reserved for gateway control planes; reserved prefixes are rejected: [\"proxy_\", \"lomway_\", \"lmg_\"]"@,
    }
}

/// Text of a global legacy policy violation.
pub open spec fn legacy_rule_text(rule: LegacyRule) -> Seq<char> {
    match rule {
        LegacyRule::ListenerHost => "proxy.listen.host must be exactly 127.0.0.1"@,
        LegacyRule::Separator => "proxy.separator must be '_' for the stable namespace contract"@,
        LegacyRule::HotReload => "proxy.hot_reload is disabled in v1 because gateway-specific policy is validated only at startup"@,
        LegacyRule::ToolExposure => "proxy.tool_exposure must be 'direct' in v1"@,
        LegacyRule::ToolDiscovery => "proxy.tool_discovery is disabled in v1"@,
        LegacyRule::RateLimit => "proxy.rate_limit is outside the v1 timeout-only middleware policy"@,
        LegacyRule::NorthboundAuth => "northbound MCP auth must remain outside the loopback gateway; Secure MCP Tunnel owns remote access"@,
        LegacyRule::AdminToken => "security.admin_token must be absent because v1 serves no admin plane"@,
        LegacyRule::CoalesceRequests => "performance.coalesce_requests is disabled in v1"@,
        LegacyRule::CompositeTools => "composite_tools are disabled in v1"@,
        LegacyRule::Cache => "global cache backend configuration must remain at the inert default in v1"@,
        LegacyRule::ArgumentBound => "security.max_argument_size must be set to at most 1048576 bytes"@,
        LegacyRule::NoBackends => "at least one backend is required"@,
    }
}

/// Text that follows `backend '<name>' ` for a per-backend legacy violation.
pub open spec fn legacy_backend_rule_text(rule: LegacyBackendRule) -> Seq<char> {
    match rule {
        LegacyBackendRule::NotHttp => "must use HTTP; backend process lifecycle is owned outside the gateway"@,
        LegacyBackendRule::Endpoint => "URL must be loopback HTTP or an explicitly allowed Tailscale HTTPS /mcp endpoint"@,
        LegacyBackendRule::Retry => "configures retry; automatic tool retry is forbidden"@,
        LegacyBackendRule::Hedging => "configures hedging; duplicate tool dispatch is forbidden"@,
        LegacyBackendRule::Cache => "configures cache; tool-call caching is forbidden"@,
        LegacyBackendRule::Middleware => "configures middleware outside the v1 timeout-only policy"@,
        LegacyBackendRule::Mirror => "configures mirror fan-out, which is forbidden"@,
        LegacyBackendRule::Failover => "configures failover, which is forbidden"@,
        LegacyBackendRule::Canary => "configures canary routing, which is forbidden"@,
        LegacyBackendRule::ForwardAuth => "enables forward_auth, which is outside the v1 trust boundary"@,
        LegacyBackendRule::SurfaceRewriting => "configures schema/capability rewriting; v1 preserves backend surfaces"@,
    }
}

/// Text of the endpoint rule for a URL that is not an exact loopback
/// `http://127.0.0.1:<port>/mcp` endpoint.
pub open spec fn url_rule_text(url: Seq<char>) -> Seq<char> {
    "backend URL must be a loopback http://127.0.0.1:<port>/mcp endpoint, got "@ + debug_str(url)
}

/// What an error reports as its cause, if it has one: a backend whose URL
/// breaks the endpoint rule names the backend in its message and the
/// endpoint rule in its cause; a document that is not TOML has the
/// parser's account of the fault as its cause.
pub open spec fn cause_text(e: GatewayError) -> Option<Seq<char>> {
    match e {
        GatewayError::BackendUrlNotAllowed { url, .. } => Some(url_rule_text(url@)),
        GatewayError::MigrateUrl { url, .. } => Some(url_rule_text(url@)),
        GatewayError::InvalidToml { detail } => Some(detail@),
        _ => None,
    }
}

/// The message followed by its cause, separated by `": "`.
pub open spec fn full_message_text(e: GatewayError) -> Seq<char> {
    match cause_text(e) {
        Some(cause) => message_text(e) + ": "@ + cause,
        None => message_text(e),
    }
}

/// The human-readable message of an error.
pub open spec fn message_text(e: GatewayError) -> Seq<char> {
    match e {
        GatewayError::UnsupportedSchemaVersion { found } => "unsupported schema_version "@
            + decimal(found as nat) + ": this release supports only 1"@,
        GatewayError::NonLoopbackListener => "server.host must be exactly 127.0.0.1; non-loopback listeners require a future security profile"@,
        GatewayError::ZeroListenerPort => "server.port must be a positive TCP port"@,
        GatewayError::NonLoopbackListenerPolicy => "policy.allow_non_loopback_listener is not permitted in this release"@,
        GatewayError::NonLoopbackBackendsPolicy => "policy.allow_non_loopback_backends is permitted only together with an explicitly configured Tailscale HTTPS /mcp backend"@,
        GatewayError::HotReloadPolicy => "policy.hot_reload is disabled in this release because gateway policy is validated only at startup"@,
        GatewayError::ArgumentSizeOutOfRange => "policy.max_argument_size_bytes must be between 1 and 1048576 bytes"@,
        GatewayError::DuplicateBackendId { id } => "duplicate backend id '"@ + id@
            + "': backend ids must be unique"@,
        GatewayError::DuplicateBackendPrefix { prefix } => "duplicate backend prefix '"@ + prefix@
            + "': prefixes must be unique"@,
        GatewayError::InvalidBackendId { id, rule } => id_rule_text(id@, rule),
        GatewayError::InvalidBackendPrefix { prefix, rule } => prefix_rule_text(prefix@, rule),
        GatewayError::InvalidBackendUrl { url } => url_rule_text(url@),
        GatewayError::BackendUrlNotAllowed { id, url } => "backend '"@ + id@
            + "' has an invalid URL"@,
        GatewayError::BackendTimeoutOutOfRange { id } => "backend '"@ + id@
            + "' timeout_seconds must be between 1 and 300"@,
        GatewayError::LegacyPolicy { rule } => legacy_rule_text(rule),
        GatewayError::LegacyBackendPolicy { name, rule } => "backend '"@ + name@ + "' "@
            + legacy_backend_rule_text(rule),
        GatewayError::MigrateSeparator => "legacy separator must be '_' to map onto the public namespace policy"@,
        GatewayError::MigrateNotHttp { name } => "backend '"@ + name@
            + "' must use HTTP to migrate to the public schema"@,
        GatewayError::MigrateUrl { name, url } => "backend '"@ + name@
            + "' cannot migrate"@,
        GatewayError::MigrateInPlace { output } => "refusing to overwrite the input configuration in place: "@
            + output@,
        GatewayError::MigrateOutputExists { output } => "refusing to overwrite an existing file: "@
            + output@ + " (delete it explicitly to re-run the migration)"@,
        GatewayError::MigrateAlreadyPublic { input } => input@
            + " is already in the public schema; migration converts a legacy [proxy] configuration"@,
        GatewayError::NoBackendsConfigured => "no backends are configured at startup; gateway fails closed by default (this release has no empty-serving mode)"@,
        GatewayError::RequiredBackendsUnavailable { ids } => "required backend(s) unavailable at startup: "@
            + joined(string_views(ids@), ", "@) + "; gateway fails closed"@,
        GatewayError::AllBackendsUnavailable { ids } => "all backends are unavailable at startup: "@
            + joined(string_views(ids@), ", "@) + "; gateway fails closed by default"@,
        GatewayError::InvalidToml { .. } => "configuration is not valid TOML"@,
        GatewayError::UnterminatedEnvRef { input } => "unterminated environment variable reference in "@
            + debug_str(input@),
        GatewayError::EmptyEnvRef { input } => "empty environment variable reference in "@
            + debug_str(input@),
        GatewayError::UnresolvedEnvRef { name } => "configuration contains unresolved environment reference ${"@
            + name@ + "}"@,
        GatewayError::TemplateMismatch { id } => "backend '"@ + id@
            + "': resolving ${VAR} references produced a different URL across passes; refusing to write a migrated file that would not reload identically"@,
        GatewayError::ConfigEnvPathMissing { path } => "LOMWAY_CONFIG points to a missing configuration file: "@
            + path@,
        GatewayError::NoConfigFound => "no configuration file found; pass --config <path>, set LOMWAY_CONFIG, or create one of config/proxy.local.toml, gateway.toml"@,
        GatewayError::ToolNameCollision {
            public_name,
            first_backend,
            first_upstream,
            second_backend,
            second_upstream,
        } => "final tool name '"@ + public_name@ + "' collides: backend '"@ + first_backend@
            + "' (upstream '"@ + first_upstream@ + "') vs backend '"@ + second_backend@
            + "' (upstream '"@ + second_upstream@ + "'); adjust backend prefixes"@,
    }
}

fn id_rule_message(id: &str, rule: IdRule) -> (r: String)
    ensures
        r@ == id_rule_text(id@, rule),
{
    match rule {
        IdRule::Empty => owned("backend id must not be empty"),
        IdRule::TooLong => {
            let mut s = owned("backend id must be at most 64 characters: ");
            s.append(debug_quoted(id).as_str());
            s
        },
        IdRule::BadStart => {
            let mut s = owned("backend id ");
            s.append(debug_quoted(id).as_str());
            s.append(
                " must start with a lowercase letter or digit (a-z 0-9 '_' '-' (must start with a letter or digit)); ambiguous ids are rejected, not normalized",
            );
            s
        },
        IdRule::BadChar => {
            let mut s = owned("backend id ");
            s.append(debug_quoted(id).as_str());
            s.append(
                " may only contain lowercase letters, digits, '_' and '-' (a-z 0-9 '_' '-' (must start with a letter or digit)); ambiguous ids are rejected, not normalized",
            );
            s
        },
    }
}

fn prefix_rule_message(prefix: &str, rule: PrefixRule) -> (r: String)
    ensures
        r@ == prefix_rule_text(prefix@, rule),
{
    match rule {
        PrefixRule::Empty => owned("backend prefix must not be empty in this release"),
        PrefixRule::TooLong => {
            let mut s = owned("backend prefix must be at most 64 characters: ");
            s.append(debug_quoted(prefix).as_str());
            s
        },
        _ => {
            let mut s = owned("backend prefix ");
            s.append(debug_quoted(prefix).as_str());
            let tail = match rule {
                PrefixRule::MissingSeparator => " must end with the '_' namespace separator; ambiguous prefixes are rejected, not normalized",
                PrefixRule::EmptyStem => " must contain at least one character before '_'",
                PrefixRule::BadChar => " may only contain lowercase letters, digits, '_' and '-' (a-z 0-9 '_' '-' (must end with '_')); ambiguous prefixes are rejected, not normalized",
                _ => " is reserved for gateway control planes; reserved prefixes are rejected: [\"proxy_\", \"lomway_\", \"lmg_\"]",
            };
            s.append(tail);
            s
        },
    }
}

fn legacy_rule_message(rule: LegacyRule) -> (r: &'static str)
    ensures
        r@ == legacy_rule_text(rule),
{
    match rule {
        LegacyRule::ListenerHost => "proxy.listen.host must be exactly 127.0.0.1",
        LegacyRule::Separator => "proxy.separator must be '_' for the stable namespace contract",
        LegacyRule::HotReload => "proxy.hot_reload is disabled in v1 because gateway-specific policy is validated only at startup",
        LegacyRule::ToolExposure => "proxy.tool_exposure must be 'direct' in v1",
        LegacyRule::ToolDiscovery => "proxy.tool_discovery is disabled in v1",
        LegacyRule::RateLimit => "proxy.rate_limit is outside the v1 timeout-only middleware policy",
        LegacyRule::NorthboundAuth => "northbound MCP auth must remain outside the loopback gateway; Secure MCP Tunnel owns remote access",
        LegacyRule::AdminToken => "security.admin_token must be absent because v1 serves no admin plane",
        LegacyRule::CoalesceRequests => "performance.coalesce_requests is disabled in v1",
        LegacyRule::CompositeTools => "composite_tools are disabled in v1",
        LegacyRule::Cache => "global cache backend configuration must remain at the inert default in v1",
        LegacyRule::ArgumentBound => "security.max_argument_size must be set to at most 1048576 bytes",
        LegacyRule::NoBackends => "at least one backend is required",
    }
}

fn legacy_backend_rule_message(rule: LegacyBackendRule) -> (r: &'static str)
    ensures
        r@ == legacy_backend_rule_text(rule),
{
    match rule {
        LegacyBackendRule::NotHttp => "must use HTTP; backend process lifecycle is owned outside the gateway",
        LegacyBackendRule::Endpoint => "URL must be loopback HTTP or an explicitly allowed Tailscale HTTPS /mcp endpoint",
        LegacyBackendRule::Retry => "configures retry; automatic tool retry is forbidden",
        LegacyBackendRule::Hedging => "configures hedging; duplicate tool dispatch is forbidden",
        LegacyBackendRule::Cache => "configures cache; tool-call caching is forbidden",
        LegacyBackendRule::Middleware => "configures middleware outside the v1 timeout-only policy",
        LegacyBackendRule::Mirror => "configures mirror fan-out, which is forbidden",
        LegacyBackendRule::Failover => "configures failover, which is forbidden",
        LegacyBackendRule::Canary => "configures canary routing, which is forbidden",
        LegacyBackendRule::ForwardAuth => "enables forward_auth, which is outside the v1 trust boundary",
        LegacyBackendRule::SurfaceRewriting => "configures schema/capability rewriting; v1 preserves backend surfaces",
    }
}

/// `head` followed by `middle` and `tail`.
fn framed(head: &str, middle: &str, tail: &str) -> (r: String)
    ensures
        r@ == head@ + middle@ + tail@,
{
    let mut s = owned(head);
    s.append(middle);
    s.append(tail);
    s
}

fn url_rule_message(url: &str) -> (r: String)
    ensures
        r@ == url_rule_text(url@),
{
    let quoted = debug_quoted(url);
    proof {
        reveal_strlit("");
        assert(quoted@ + ""@ =~= quoted@);
    }
    framed(
        "backend URL must be a loopback http://127.0.0.1:<port>/mcp endpoint, got ",
        quoted.as_str(),
        "",
    )
}

impl GatewayError {
    /// The human-readable message of this error, naming the violated rule
    /// and the offending values.
    pub fn message(&self) -> (r: String)
        ensures
            r@ == message_text(*self),
    {
        proof {
            reveal_strlit("");
        }
        match self {
            GatewayError::UnsupportedSchemaVersion { found } => {
                let digits = render_decimal(*found as u64);
                framed(
                    "unsupported schema_version ",
                    digits.as_str(),
                    ": this release supports only 1",
                )
            },
            GatewayError::NonLoopbackListener => owned(
                "server.host must be exactly 127.0.0.1; non-loopback listeners require a future security profile",
            ),
            GatewayError::ZeroListenerPort => owned("server.port must be a positive TCP port"),
            GatewayError::NonLoopbackListenerPolicy => owned(
                "policy.allow_non_loopback_listener is not permitted in this release",
            ),
            GatewayError::NonLoopbackBackendsPolicy => owned(
                "policy.allow_non_loopback_backends is permitted only together with an explicitly configured Tailscale HTTPS /mcp backend",
            ),
            GatewayError::HotReloadPolicy => owned(
                "policy.hot_reload is disabled in this release because gateway policy is validated only at startup",
            ),
            GatewayError::ArgumentSizeOutOfRange => owned(
                "policy.max_argument_size_bytes must be between 1 and 1048576 bytes",
            ),
            GatewayError::DuplicateBackendId { id } => framed(
                "duplicate backend id '",
                id.as_str(),
                "': backend ids must be unique",
            ),
            GatewayError::DuplicateBackendPrefix { prefix } => framed(
                "duplicate backend prefix '",
                prefix.as_str(),
                "': prefixes must be unique",
            ),
            GatewayError::InvalidBackendId { id, rule } => id_rule_message(id.as_str(), *rule),
            GatewayError::InvalidBackendPrefix { prefix, rule } => prefix_rule_message(
                prefix.as_str(),
                *rule,
            ),
            GatewayError::InvalidBackendUrl { url } => url_rule_message(url.as_str()),
            GatewayError::BackendUrlNotAllowed { id, .. } => framed(
                "backend '",
                id.as_str(),
                "' has an invalid URL",
            ),
            GatewayError::BackendTimeoutOutOfRange { id } => framed(
                "backend '",
                id.as_str(),
                "' timeout_seconds must be between 1 and 300",
            ),
            GatewayError::LegacyPolicy { rule } => owned(legacy_rule_message(*rule)),
            GatewayError::LegacyBackendPolicy { name, rule } => framed(
                "backend '",
                name.as_str(),
                "' ",
            ).concat(legacy_backend_rule_message(*rule)),
            GatewayError::MigrateSeparator => owned(
                "legacy separator must be '_' to map onto the public namespace policy",
            ),
            GatewayError::MigrateNotHttp { name } => framed(
                "backend '",
                name.as_str(),
                "' must use HTTP to migrate to the public schema",
            ),
            GatewayError::MigrateUrl { name, .. } => framed(
                "backend '",
                name.as_str(),
                "' cannot migrate",
            ),
            GatewayError::MigrateInPlace { output } => framed(
                "refusing to overwrite the input configuration in place: ",
                output.as_str(),
                "",
            ),
            GatewayError::MigrateOutputExists { output } => framed(
                "refusing to overwrite an existing file: ",
                output.as_str(),
                " (delete it explicitly to re-run the migration)",
            ),
            GatewayError::MigrateAlreadyPublic { input } => framed(
                "",
                input.as_str(),
                " is already in the public schema; migration converts a legacy [proxy] configuration",
            ),
            GatewayError::NoBackendsConfigured => owned(
                "no backends are configured at startup; gateway fails closed by default (this release has no empty-serving mode)",
            ),
            GatewayError::RequiredBackendsUnavailable { ids } => {
                let list = join_with(ids, ", ");
                framed(
                    "required backend(s) unavailable at startup: ",
                    list.as_str(),
                    "; gateway fails closed",
                )
            },
            GatewayError::AllBackendsUnavailable { ids } => {
                let list = join_with(ids, ", ");
                framed(
                    "all backends are unavailable at startup: ",
                    list.as_str(),
                    "; gateway fails closed by default",
                )
            },
            GatewayError::InvalidToml { .. } => owned("configuration is not valid TOML"),
            GatewayError::UnterminatedEnvRef { input } => {
                let quoted = debug_quoted(input.as_str());
                framed("unterminated environment variable reference in ", quoted.as_str(), "")
            },
            GatewayError::EmptyEnvRef { input } => {
                let quoted = debug_quoted(input.as_str());
                framed("empty environment variable reference in ", quoted.as_str(), "")
            },
            GatewayError::UnresolvedEnvRef { name } => framed(
                "configuration contains unresolved environment reference ${",
                name.as_str(),
                "}",
            ),
            GatewayError::TemplateMismatch { id } => framed(
                "backend '",
                id.as_str(),
                "': resolving ${VAR} references produced a different URL across passes; refusing to write a migrated file that would not reload identically",
            ),
            GatewayError::ConfigEnvPathMissing { path } => framed(
                "LOMWAY_CONFIG points to a missing configuration file: ",
                path.as_str(),
                "",
            ),
            GatewayError::NoConfigFound => owned(
                "no configuration file found; pass --config <path>, set LOMWAY_CONFIG, or create one of config/proxy.local.toml, gateway.toml",
            ),
            GatewayError::ToolNameCollision {
                public_name,
                first_backend,
                first_upstream,
                second_backend,
                second_upstream,
            } => {
                let mut s = framed("final tool name '", public_name.as_str(), "' collides: backend '");
                s.append(first_backend.as_str());
                s.append("' (upstream '");
                s.append(first_upstream.as_str());
                s.append("') vs backend '");
                s.append(second_backend.as_str());
                s.append("' (upstream '");
                s.append(second_upstream.as_str());
                s.append("'); adjust backend prefixes");
                s
            },
        }
    }

    /// What this error reports as its cause, if it has one.
    pub fn cause(&self) -> (r: Option<String>)
        ensures
            r is Some <==> cause_text(*self) is Some,
            r is Some ==> cause_text(*self) == Some(r->0@),
    {
        match self {
            GatewayError::BackendUrlNotAllowed { url, .. } => Some(url_rule_message(url.as_str())),
            GatewayError::MigrateUrl { url, .. } => Some(url_rule_message(url.as_str())),
            GatewayError::InvalidToml { detail } => Some(detail.clone()),
            _ => None,
        }
    }

    /// The message followed by its cause, separated by `": "`: the whole
    /// chain that a command-line front end reports.
    pub fn full_message(&self) -> (r: String)
        ensures
            r@ == full_message_text(*self),
    {
        let head = self.message();
        match self.cause() {
            Some(cause) => framed(head.as_str(), ": ", cause.as_str()),
            None => head,
        }
    }
}

} // verus!
