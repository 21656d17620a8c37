//! Public configuration schema (`schema_version = 1`).
//!
//! ```toml
//! schema_version = 1
//!
//! [server]
//! host = "127.0.0.1"
//! port = 17777
//!
//! [policy]
//! allow_non_loopback_listener = false
//! allow_non_loopback_backends = false
//! hot_reload = false
//! max_argument_size_bytes = 1048576
//!
//! [[backends]]
//! id = "filesystem"
//! prefix = "fs_"
//! url = "http://127.0.0.1:8001/mcp"
//! required = true
//! ```
//!
//! The types here are plain data. Parsing a document into them (with
//! unknown keys rejected) is done outside the verified library; every rule
//! about their contents lives in [`crate::config::validate`].

use vstd::prelude::*;
use vstd::string::*;

verus! {

/// Default bind host of the northbound listener.
pub const DEFAULT_LISTEN_HOST: &'static str = "127.0.0.1";

/// Default bind port of the northbound listener.
pub const DEFAULT_LISTEN_PORT: u16 = 17777;

/// Default per-backend request and probe timeout in seconds.
pub const DEFAULT_BACKEND_TIMEOUT_SECONDS: u64 = 30;

/// Default graceful shutdown timeout in seconds.
pub const DEFAULT_SHUTDOWN_TIMEOUT_SECONDS: u64 = 30;

/// Default `tracing` filter of the gateway process.
pub const DEFAULT_LOG_LEVEL: &'static str = "info";

/// Top-level public configuration.
#[derive(Debug, Clone)]
pub struct GatewayConfig {
    /// Only schema version 1 is supported in this release.
    pub schema_version: u32,
    /// Northbound listener settings.
    pub server: ServerConfig,
    /// Safety policy switches.
    pub policy: PolicyConfig,
    /// Log settings of the gateway process itself.
    pub observability: ObservabilityConfig,
    /// Aggregated backends: zero, one, or many entries.
    pub backends: Vec<BackendEntry>,
}

/// Listener settings.
#[derive(Debug, Clone)]
pub struct ServerConfig {
    /// Bind host. Only `127.0.0.1` is allowed in v1.
    pub host: String,
    /// Bind port.
    pub port: u16,
    /// Optional MCP `instructions` text passed through to clients.
    pub instructions: Option<String>,
    /// Graceful shutdown timeout in seconds.
    pub shutdown_timeout_seconds: u64,
}

/// Policy switches. Every escape hatch fails closed unless it is used in
/// the one narrow way this release supports.
#[derive(Debug, Clone)]
pub struct PolicyConfig {
    /// Must remain `false`.
    pub allow_non_loopback_listener: bool,
    /// Opt-in for Tailscale HTTPS `/mcp` backends.
    pub allow_non_loopback_backends: bool,
    /// Must remain `false`; gateway policy is only validated at startup.
    pub hot_reload: bool,
    /// Upper bound for tool-call argument payloads in bytes.
    pub max_argument_size_bytes: usize,
}

/// Gateway process log settings. These never log tool arguments or secrets.
#[derive(Debug, Clone)]
pub struct ObservabilityConfig {
    /// Emit audit lines for MCP calls.
    pub audit: bool,
    /// `tracing` filter, for example `info` or `lomway=debug`.
    pub log_level: String,
    /// Emit structured JSON logs on stderr instead of plain text.
    pub json_logs: bool,
}

/// One aggregated backend.
#[derive(Debug, Clone)]
pub struct BackendEntry {
    /// Stable identifier, unique across the configuration.
    pub id: String,
    /// Namespace prefix applied to every tool of this backend.
    pub prefix: String,
    /// Streamable HTTP MCP endpoint.
    pub url: String,
    /// Required backends fail startup when unreachable; optional backends
    /// degrade startup instead.
    pub required: bool,
    /// Per-backend request and startup-probe timeout in seconds.
    pub timeout_seconds: u64,
}

fn default_host() -> (r: String)
    ensures
        r@ == DEFAULT_LISTEN_HOST@,
{
    String::from_str(DEFAULT_LISTEN_HOST)
}

fn default_port() -> (r: u16)
    ensures
        r == DEFAULT_LISTEN_PORT,
{
    DEFAULT_LISTEN_PORT
}

fn default_shutdown_timeout() -> (r: u64)
    ensures
        r == DEFAULT_SHUTDOWN_TIMEOUT_SECONDS,
{
    DEFAULT_SHUTDOWN_TIMEOUT_SECONDS
}

fn default_max_argument_size() -> (r: usize)
    ensures
        r == crate::config::validate::MAX_ARGUMENT_SIZE_BYTES,
{
    crate::config::validate::MAX_ARGUMENT_SIZE_BYTES
}

fn default_audit() -> (r: bool)
    ensures
        r,
{
    true
}

fn default_log_level() -> (r: String)
    ensures
        r@ == DEFAULT_LOG_LEVEL@,
{
    String::from_str(DEFAULT_LOG_LEVEL)
}

fn default_required() -> (r: bool)
    ensures
        r,
{
    true
}

fn default_timeout_seconds() -> (r: u64)
    ensures
        r == DEFAULT_BACKEND_TIMEOUT_SECONDS,
{
    DEFAULT_BACKEND_TIMEOUT_SECONDS
}

impl Default for BackendEntry {
    fn default() -> (r: Self)
        ensures
            r.id@.len() == 0,
            r.prefix@.len() == 0,
            r.url@.len() == 0,
            r.required,
            r.timeout_seconds == DEFAULT_BACKEND_TIMEOUT_SECONDS,
    {
        BackendEntry {
            id: String::new(),
            prefix: String::new(),
            url: String::new(),
            required: default_required(),
            timeout_seconds: default_timeout_seconds(),
        }
    }
}

impl Default for ServerConfig {
    fn default() -> (r: Self)
        ensures
            r.host@ == DEFAULT_LISTEN_HOST@,
            r.port == DEFAULT_LISTEN_PORT,
            r.instructions is None,
            r.shutdown_timeout_seconds == DEFAULT_SHUTDOWN_TIMEOUT_SECONDS,
    {
        ServerConfig {
            host: default_host(),
            port: default_port(),
            instructions: None,
            shutdown_timeout_seconds: default_shutdown_timeout(),
        }
    }
}

impl Default for PolicyConfig {
    fn default() -> (r: Self)
        ensures
            !r.allow_non_loopback_listener,
            !r.allow_non_loopback_backends,
            !r.hot_reload,
            r.max_argument_size_bytes == crate::config::validate::MAX_ARGUMENT_SIZE_BYTES,
    {
        PolicyConfig {
            allow_non_loopback_listener: false,
            allow_non_loopback_backends: false,
            hot_reload: false,
            max_argument_size_bytes: default_max_argument_size(),
        }
    }
}

impl Default for ObservabilityConfig {
    fn default() -> (r: Self)
        ensures
            r.audit,
            r.log_level@ == DEFAULT_LOG_LEVEL@,
            !r.json_logs,
    {
        ObservabilityConfig {
            audit: default_audit(),
            log_level: default_log_level(),
            json_logs: false,
        }
    }
}

} // verus!
