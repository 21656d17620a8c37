//! Policy validation for the public configuration model.
//!
//! Validation is fail-closed: unsupported or unsafe values are hard errors,
//! never warnings, and nothing is silently normalized. The backend list may
//! hold zero, one or many entries; every entry that is present is fully
//! validated.
//!
//! The only escape hatch with a supported use is
//! `policy.allow_non_loopback_backends`: it admits backends at an exact
//! Tailscale HTTPS endpoint (`https://<host>.ts.net/mcp`), and is itself
//! rejected when no backend uses such an endpoint.

use vstd::prelude::*;
use vstd::string::*;

use crate::config::model::{BackendEntry, GatewayConfig};
use crate::error::{GatewayError, IdRule, PrefixRule};
use crate::text::{
    all_name_chars, find_char, find_char_from, is_lower_alnum, lemma_find_char_from, lower_alnum,
    only_name_chars, owned, parse_u16, parse_u16_spec, starts_with, str_eq,
};

verus! {

/// The only supported configuration schema version.
pub const SCHEMA_VERSION: u32 = 1;

/// Default (and maximum) tool-call argument payload size in bytes: 1 MiB.
pub const MAX_ARGUMENT_SIZE_BYTES: usize = 1048576;

/// Maximum backend request/probe timeout in seconds.
pub const MAX_BACKEND_TIMEOUT_SECONDS: u64 = 300;

/// Maximum length of a backend id or prefix in bytes.
pub const MAX_NAME_BYTES: usize = 64;

/// Namespace prefixes reserved for gateway control planes.
pub const RESERVED_PREFIXES: [&'static str; 3] = ["proxy_", "lomway_", "lmg_"];

/// Allowed prefix charset, documented as part of the namespace policy.
pub const ALLOWED_PREFIX_CHARSET: &'static str = "a-z 0-9 '_' '-' (must end with '_')";

/// Allowed backend id charset, documented as part of the namespace policy.
pub const ALLOWED_ID_CHARSET: &'static str = "a-z 0-9 '_' '-' (must start with a letter or digit)";

/// The only listener host this release binds.
pub const LOOPBACK_HOST: &'static str = "127.0.0.1";

/// Every loopback backend URL starts with this.
pub const LOOPBACK_URL_PREFIX: &'static str = "http://127.0.0.1:";

/// The path every backend endpoint must have.
pub const MCP_PATH: &'static str = "mcp";

/// Scheme of a Tailscale HTTPS backend endpoint.
pub const TAILNET_URL_PREFIX: &'static str = "https://";

/// Tail of a Tailscale HTTPS backend endpoint: MagicDNS suffix and path.
pub const TAILNET_URL_SUFFIX: &'static str = ".ts.net/mcp";

/// Length in bytes of the UTF-8 encoding of `s`, as `str::len` reports it.
pub open spec fn byte_len(s: Seq<char>) -> usize {
    vstd::utf8::encode_utf8(s).len() as usize
}

/// The first backend-id rule that `id` violates, if any.
pub open spec fn id_rule_violated(id: Seq<char>) -> Option<IdRule> {
    if id.len() == 0 {
        Some(IdRule::Empty)
    } else if byte_len(id) > 64 {
        Some(IdRule::TooLong)
    } else if !is_lower_alnum(id[0]) {
        Some(IdRule::BadStart)
    } else if !all_name_chars(id) {
        Some(IdRule::BadChar)
    } else {
        None
    }
}

/// `e` is the error reported for the invalid id `id`.
pub open spec fn is_id_error(e: GatewayError, id: Seq<char>) -> bool {
    match id_rule_violated(id) {
        Some(rule) => e matches GatewayError::InvalidBackendId { id: i, rule: r } && i@ == id && r == rule,
        None => false,
    }
}

/// Prefixes reserved for gateway control planes.
pub open spec fn is_reserved_prefix(p: Seq<char>) -> bool {
    p == RESERVED_PREFIXES[0]@ || p == RESERVED_PREFIXES[1]@ || p == RESERVED_PREFIXES[2]@
}

/// The first namespace-prefix rule that `p` violates, if any.
pub open spec fn prefix_rule_violated(p: Seq<char>) -> Option<PrefixRule> {
    if p.len() == 0 {
        Some(PrefixRule::Empty)
    } else if byte_len(p) > 64 {
        Some(PrefixRule::TooLong)
    } else if p.last() != '_' {
        Some(PrefixRule::MissingSeparator)
    } else if p.len() == 1 {
        Some(PrefixRule::EmptyStem)
    } else if !all_name_chars(p.drop_last()) {
        Some(PrefixRule::BadChar)
    } else if is_reserved_prefix(p) {
        Some(PrefixRule::Reserved)
    } else {
        None
    }
}

/// `e` is the error reported for the invalid prefix `p`.
pub open spec fn is_prefix_error(e: GatewayError, p: Seq<char>) -> bool {
    match prefix_rule_violated(p) {
        Some(rule) => e matches GatewayError::InvalidBackendPrefix { prefix: q, rule: r } && q@ == p && r
            == rule,
        None => false,
    }
}

/// `http://127.0.0.1:<port>/mcp` where `<port>` parses as a positive `u16`.
pub open spec fn is_loopback_mcp_url(url: Seq<char>) -> bool {
    let pre = LOOPBACK_URL_PREFIX@;
    pre.is_prefix_of(url) && {
        let rest = url.skip(pre.len() as int);
        let k = find_char_from(rest, '/', 0);
        &&& k < rest.len()
        &&& rest.skip(k + 1) == MCP_PATH@
        &&& parse_u16_spec(rest.take(k)) matches Some(port) && port > 0
    }
}

/// A character of a MagicDNS host name.
pub open spec fn is_host_char(c: char) -> bool {
    ('a' <= c && c <= 'z') || ('0' <= c && c <= '9') || c == '-' || c == '.'
}

/// `https://<stem>.ts.net/mcp` where the stem is a non-empty run of
/// lowercase letters, digits, `-` and `.` that neither starts nor ends
/// with `.`.
pub open spec fn is_tailnet_https_mcp_url(url: Seq<char>) -> bool {
    let pre = TAILNET_URL_PREFIX@;
    let suf = TAILNET_URL_SUFFIX@;
    &&& pre.is_prefix_of(url)
    &&& suf.is_suffix_of(url)
    &&& url.len() > pre.len() + suf.len()
    &&& {
        let stem = url.subrange(pre.len() as int, url.len() - suf.len());
        &&& forall|i: int| 0 <= i < stem.len() ==> is_host_char(#[trigger] stem[i])
        &&& stem[0] != '.'
        &&& stem.last() != '.'
    }
}

/// Whether a backend endpoint is admitted under the given opt-in.
pub open spec fn backend_url_allowed(url: Seq<char>, allow_tailnet: bool) -> bool {
    is_loopback_mcp_url(url) || (allow_tailnet && is_tailnet_https_mcp_url(url))
}

/// Which per-backend rule an entry violates first.
#[derive(Debug, Clone, Copy, PartialEq, Eq)]
pub enum EntryFault {
    /// The id violates an id rule.
    Id(IdRule),
    /// The prefix violates a prefix rule.
    Prefix(PrefixRule),
    /// The URL is not an admitted endpoint.
    Url,
    /// The timeout is outside `1..=300` seconds.
    Timeout,
}

/// The first per-backend rule that `b` violates, if any.
pub open spec fn entry_fault(b: BackendEntry, allow_tailnet: bool) -> Option<EntryFault> {
    if let Some(rule) = id_rule_violated(b.id@) {
        Some(EntryFault::Id(rule))
    } else if let Some(rule) = prefix_rule_violated(b.prefix@) {
        Some(EntryFault::Prefix(rule))
    } else if !backend_url_allowed(b.url@, allow_tailnet) {
        Some(EntryFault::Url)
    } else if !(1 <= b.timeout_seconds <= MAX_BACKEND_TIMEOUT_SECONDS) {
        Some(EntryFault::Timeout)
    } else {
        None
    }
}

/// `e` is the error reported for the entry `b`.
pub open spec fn is_entry_error(e: GatewayError, b: BackendEntry, allow_tailnet: bool) -> bool {
    match entry_fault(b, allow_tailnet) {
        Some(EntryFault::Id(_)) => is_id_error(e, b.id@),
        Some(EntryFault::Prefix(_)) => is_prefix_error(e, b.prefix@),
        Some(EntryFault::Url) => e matches GatewayError::BackendUrlNotAllowed { id, url } && id@ == b.id@
            && url@ == b.url@,
        Some(EntryFault::Timeout) => e matches GatewayError::BackendTimeoutOutOfRange { id } && id@
            == b.id@,
        None => false,
    }
}

/// Some backend uses the Tailscale HTTPS profile.
pub open spec fn uses_tailnet_backend(c: GatewayConfig) -> bool {
    exists|i: int|
        0 <= i < c.backends.len() && is_tailnet_https_mcp_url(#[trigger] c.backends[i].url@)
}

/// The policy-flag error of `c`, if any.
pub open spec fn policy_flags_error(c: GatewayConfig) -> Option<GatewayError> {
    if c.policy.allow_non_loopback_listener {
        Some(GatewayError::NonLoopbackListenerPolicy)
    } else if c.policy.allow_non_loopback_backends && !uses_tailnet_backend(c) {
        Some(GatewayError::NonLoopbackBackendsPolicy)
    } else if c.policy.hot_reload {
        Some(GatewayError::HotReloadPolicy)
    } else if !(1 <= c.policy.max_argument_size_bytes <= MAX_ARGUMENT_SIZE_BYTES) {
        Some(GatewayError::ArgumentSizeOutOfRange)
    } else {
        None
    }
}

/// Backend `i` shares its id with a later backend.
pub open spec fn id_dup_after(bs: Seq<BackendEntry>, i: int) -> bool {
    exists|j: int| i < j < bs.len() && #[trigger] bs[j].id@ == bs[i].id@
}

/// Backend `i` shares its prefix with a later backend.
pub open spec fn prefix_dup_after(bs: Seq<BackendEntry>, i: int) -> bool {
    exists|j: int| i < j < bs.len() && #[trigger] bs[j].prefix@ == bs[i].prefix@
}

/// First index at or after `i` whose id repeats later (`bs.len()` if none).
pub open spec fn first_dup_id_from(bs: Seq<BackendEntry>, i: int) -> int
    decreases bs.len() - i,
{
    if i < 0 || i >= bs.len() {
        bs.len() as int
    } else if id_dup_after(bs, i) {
        i
    } else {
        first_dup_id_from(bs, i + 1)
    }
}

/// First index at or after `i` whose prefix repeats later (`bs.len()` if
/// none).
pub open spec fn first_dup_prefix_from(bs: Seq<BackendEntry>, i: int) -> int
    decreases bs.len() - i,
{
    if i < 0 || i >= bs.len() {
        bs.len() as int
    } else if prefix_dup_after(bs, i) {
        i
    } else {
        first_dup_prefix_from(bs, i + 1)
    }
}

/// First index at or after `i` whose entry violates a rule (`bs.len()` if
/// none).
pub open spec fn first_faulty_entry_from(bs: Seq<BackendEntry>, allow_tailnet: bool, i: int) -> int
    decreases bs.len() - i,
{
    if i < 0 || i >= bs.len() {
        bs.len() as int
    } else if entry_fault(bs[i], allow_tailnet) is Some {
        i
    } else {
        first_faulty_entry_from(bs, allow_tailnet, i + 1)
    }
}

pub proof fn lemma_first_dup_id_from(bs: Seq<BackendEntry>, i: int)
    requires
        0 <= i <= bs.len(),
    ensures
        i <= first_dup_id_from(bs, i) <= bs.len(),
        first_dup_id_from(bs, i) < bs.len() ==> id_dup_after(bs, first_dup_id_from(bs, i)),
        forall|k: int| i <= k < first_dup_id_from(bs, i) ==> !id_dup_after(bs, k),
    decreases bs.len() - i,
{
    if i < bs.len() && !id_dup_after(bs, i) {
        lemma_first_dup_id_from(bs, i + 1);
    }
}

pub proof fn lemma_first_dup_prefix_from(bs: Seq<BackendEntry>, i: int)
    requires
        0 <= i <= bs.len(),
    ensures
        i <= first_dup_prefix_from(bs, i) <= bs.len(),
        first_dup_prefix_from(bs, i) < bs.len() ==> prefix_dup_after(
            bs,
            first_dup_prefix_from(bs, i),
        ),
        forall|k: int| i <= k < first_dup_prefix_from(bs, i) ==> !prefix_dup_after(bs, k),
    decreases bs.len() - i,
{
    if i < bs.len() && !prefix_dup_after(bs, i) {
        lemma_first_dup_prefix_from(bs, i + 1);
    }
}

pub proof fn lemma_first_faulty_entry_from(bs: Seq<BackendEntry>, allow_tailnet: bool, i: int)
    requires
        0 <= i <= bs.len(),
    ensures
        i <= first_faulty_entry_from(bs, allow_tailnet, i) <= bs.len(),
        first_faulty_entry_from(bs, allow_tailnet, i) < bs.len() ==> entry_fault(
            bs[first_faulty_entry_from(bs, allow_tailnet, i)],
            allow_tailnet,
        ) is Some,
        forall|k: int|
            i <= k < first_faulty_entry_from(bs, allow_tailnet, i) ==> entry_fault(
                #[trigger] bs[k],
                allow_tailnet,
            ) is None,
    decreases bs.len() - i,
{
    if i < bs.len() && entry_fault(bs[i], allow_tailnet) is None {
        lemma_first_faulty_entry_from(bs, allow_tailnet, i + 1);
    }
}

/// Every rule of the public configuration holds.
pub open spec fn config_valid(c: GatewayConfig) -> bool {
    let bs = c.backends@;
    &&& c.schema_version == SCHEMA_VERSION
    &&& c.server.host@ == LOOPBACK_HOST@
    &&& c.server.port > 0
    &&& policy_flags_error(c) is None
    &&& first_dup_id_from(bs, 0) == bs.len()
    &&& first_dup_prefix_from(bs, 0) == bs.len()
    &&& first_faulty_entry_from(bs, c.policy.allow_non_loopback_backends, 0) == bs.len()
}

/// `e` is the error that validation reports for `c`: the first rule that
/// fails, in the order schema version, listener, policy flags, unique ids,
/// unique prefixes, then each backend entry in configuration order.
pub open spec fn is_validation_error(c: GatewayConfig, e: GatewayError) -> bool {
    let bs = c.backends@;
    let allow = c.policy.allow_non_loopback_backends;
    if c.schema_version != SCHEMA_VERSION {
        e == GatewayError::UnsupportedSchemaVersion { found: c.schema_version }
    } else if c.server.host@ != LOOPBACK_HOST@ {
        e == GatewayError::NonLoopbackListener
    } else if c.server.port == 0 {
        e == GatewayError::ZeroListenerPort
    } else if policy_flags_error(c) is Some {
        Some(e) == policy_flags_error(c)
    } else if first_dup_id_from(bs, 0) < bs.len() {
        e matches GatewayError::DuplicateBackendId { id } && id@ == bs[first_dup_id_from(bs, 0)].id@
    } else if first_dup_prefix_from(bs, 0) < bs.len() {
        e matches GatewayError::DuplicateBackendPrefix { prefix } && prefix@ == bs[first_dup_prefix_from(
            bs,
            0,
        )].prefix@
    } else {
        let i = first_faulty_entry_from(bs, allow, 0);
        i < bs.len() && is_entry_error(e, bs[i], allow)
    }
}

/// Validate a public configuration end to end: schema version, listener,
/// policy flags, id and prefix uniqueness, and every backend entry.
///
/// The backend list may be empty, hold one entry, or hold many.
pub fn validate(config: &GatewayConfig) -> (r: Result<(), GatewayError>)
    ensures
        r is Ok <==> config_valid(*config),
        r matches Err(e) ==> is_validation_error(*config, e),
{
    proof {
        lemma_first_dup_id_from(config.backends@, 0);
        lemma_first_dup_prefix_from(config.backends@, 0);
    }
    match validate_schema_version(config.schema_version) {
        Err(e) => return Err(e),
        Ok(()) => {},
    }
    match validate_server(config.server.host.as_str(), config.server.port) {
        Err(e) => return Err(e),
        Ok(()) => {},
    }
    match validate_policy_flags(config) {
        Err(e) => return Err(e),
        Ok(()) => {},
    }
    match validate_unique_ids(config) {
        Err(e) => return Err(e),
        Ok(()) => {},
    }
    match validate_unique_prefixes(config) {
        Err(e) => return Err(e),
        Ok(()) => {},
    }
    let allow = config.policy.allow_non_loopback_backends;
    let n = config.backends.len();
    let ghost bs = config.backends@;
    proof {
        lemma_first_faulty_entry_from(bs, allow, 0);
    }
    let mut i: usize = 0;
    while i < n
        invariant
            n == bs.len(),
            bs == config.backends@,
            allow == config.policy.allow_non_loopback_backends,
            i <= n,
            config.schema_version == SCHEMA_VERSION,
            config.server.host@ == LOOPBACK_HOST@,
            config.server.port > 0,
            policy_flags_error(*config) is None,
            first_dup_id_from(bs, 0) == bs.len(),
            first_dup_prefix_from(bs, 0) == bs.len(),
            first_faulty_entry_from(bs, allow, 0) == first_faulty_entry_from(bs, allow, i as int),
            forall|k: int| 0 <= k < i ==> entry_fault(#[trigger] bs[k], allow) is None,
        decreases n - i,
    {
        match validate_entry(&config.backends[i], allow) {
            Err(e) => {
                assert(first_faulty_entry_from(bs, allow, i as int) == i);
                return Err(e);
            },
            Ok(()) => {},
        }
        i = i + 1;
    }
    Ok(())
}

/// Only schema version 1 exists today; other values fail with the value.
pub fn validate_schema_version(schema_version: u32) -> (r: Result<(), GatewayError>)
    ensures
        r == (if schema_version == SCHEMA_VERSION {
            Ok(())
        } else {
            Err(GatewayError::UnsupportedSchemaVersion { found: schema_version })
        }),
{
    if schema_version == SCHEMA_VERSION {
        Ok(())
    } else {
        Err(GatewayError::UnsupportedSchemaVersion { found: schema_version })
    }
}

/// The listener is loopback-only in v1 and needs a positive port.
pub fn validate_server(host: &str, port: u16) -> (r: Result<(), GatewayError>)
    ensures
        r == (if host@ != LOOPBACK_HOST@ {
            Err(GatewayError::NonLoopbackListener)
        } else if port == 0 {
            Err(GatewayError::ZeroListenerPort)
        } else {
            Ok(())
        }),
{
    if !str_eq(host, LOOPBACK_HOST) {
        return Err(GatewayError::NonLoopbackListener);
    }
    if port == 0 {
        return Err(GatewayError::ZeroListenerPort);
    }
    Ok(())
}

/// Whether some backend of `config` uses the Tailscale HTTPS profile.
fn has_tailnet_backend(config: &GatewayConfig) -> (r: bool)
    ensures
        r == uses_tailnet_backend(*config),
{
    let n = config.backends.len();
    let mut i: usize = 0;
    while i < n
        invariant
            n == config.backends@.len(),
            i <= n,
            forall|k: int|
                0 <= k < i ==> !is_tailnet_https_mcp_url(#[trigger] config.backends@[k].url@),
        decreases n - i,
    {
        if is_exact_tailnet_https_mcp_url(config.backends[i].url.as_str()) {
            return true;
        }
        i = i + 1;
    }
    false
}

/// Every policy escape hatch fails closed; the non-loopback backend opt-in
/// is only accepted together with a backend that uses it.
pub fn validate_policy_flags(config: &GatewayConfig) -> (r: Result<(), GatewayError>)
    ensures
        r == (match policy_flags_error(*config) {
            Some(e) => Err(e),
            None => Ok(()),
        }),
{
    if config.policy.allow_non_loopback_listener {
        return Err(GatewayError::NonLoopbackListenerPolicy);
    }
    if config.policy.allow_non_loopback_backends && !has_tailnet_backend(config) {
        return Err(GatewayError::NonLoopbackBackendsPolicy);
    }
    if config.policy.hot_reload {
        return Err(GatewayError::HotReloadPolicy);
    }
    let max = config.policy.max_argument_size_bytes;
    if !(1 <= max && max <= MAX_ARGUMENT_SIZE_BYTES) {
        return Err(GatewayError::ArgumentSizeOutOfRange);
    }
    Ok(())
}

fn validate_unique_ids(config: &GatewayConfig) -> (r: Result<(), GatewayError>)
    ensures
        r is Ok <==> first_dup_id_from(config.backends@, 0) == config.backends@.len(),
        r matches Err(e) ==> e matches GatewayError::DuplicateBackendId { id } && id@
            == config.backends@[first_dup_id_from(config.backends@, 0)].id@,
{
    let n = config.backends.len();
    let ghost bs = config.backends@;
    proof {
        lemma_first_dup_id_from(bs, 0);
    }
    let mut i: usize = 0;
    while i < n
        invariant
            n == bs.len(),
            bs == config.backends@,
            i <= n,
            first_dup_id_from(bs, 0) == first_dup_id_from(bs, i as int),
        decreases n - i,
    {
        let mut j: usize = i + 1;
        while j < n
            invariant
                n == bs.len(),
                bs == config.backends@,
                i < n,
                i + 1 <= j <= n,
                first_dup_id_from(bs, 0) == first_dup_id_from(bs, i as int),
                forall|k: int| i < k < j ==> #[trigger] bs[k].id@ != bs[i as int].id@,
            decreases n - j,
        {
            if str_eq(config.backends[j].id.as_str(), config.backends[i].id.as_str()) {
                assert(id_dup_after(bs, i as int));
                let id = config.backends[i].id.clone();
                return Err(GatewayError::DuplicateBackendId { id });
            }
            j = j + 1;
        }
        assert(!id_dup_after(bs, i as int));
        i = i + 1;
    }
    Ok(())
}

fn validate_unique_prefixes(config: &GatewayConfig) -> (r: Result<(), GatewayError>)
    ensures
        r is Ok <==> first_dup_prefix_from(config.backends@, 0) == config.backends@.len(),
        r matches Err(e) ==> e matches GatewayError::DuplicateBackendPrefix { prefix } && prefix@
            == config.backends@[first_dup_prefix_from(config.backends@, 0)].prefix@,
{
    let n = config.backends.len();
    let ghost bs = config.backends@;
    proof {
        lemma_first_dup_prefix_from(bs, 0);
    }
    let mut i: usize = 0;
    while i < n
        invariant
            n == bs.len(),
            bs == config.backends@,
            i <= n,
            first_dup_prefix_from(bs, 0) == first_dup_prefix_from(bs, i as int),
        decreases n - i,
    {
        let mut j: usize = i + 1;
        while j < n
            invariant
                n == bs.len(),
                bs == config.backends@,
                i < n,
                i + 1 <= j <= n,
                first_dup_prefix_from(bs, 0) == first_dup_prefix_from(bs, i as int),
                forall|k: int| i < k < j ==> #[trigger] bs[k].prefix@ != bs[i as int].prefix@,
            decreases n - j,
        {
            if str_eq(config.backends[j].prefix.as_str(), config.backends[i].prefix.as_str()) {
                assert(prefix_dup_after(bs, i as int));
                let prefix = config.backends[i].prefix.clone();
                return Err(GatewayError::DuplicateBackendPrefix { prefix });
            }
            j = j + 1;
        }
        assert(!prefix_dup_after(bs, i as int));
        i = i + 1;
    }
    Ok(())
}

/// All per-backend rules for one entry, in order: id, prefix, endpoint,
/// timeout.
pub fn validate_entry(entry: &BackendEntry, allow_tailnet: bool) -> (r: Result<(), GatewayError>)
    ensures
        r is Ok <==> entry_fault(*entry, allow_tailnet) is None,
        r matches Err(e) ==> is_entry_error(e, *entry, allow_tailnet),
{
    match validate_backend_id(entry.id.as_str()) {
        Err(e) => return Err(e),
        Ok(()) => {},
    }
    match validate_backend_prefix(entry.prefix.as_str()) {
        Err(e) => return Err(e),
        Ok(()) => {},
    }
    let url = entry.url.as_str();
    if !(is_exact_loopback_mcp_url(url) || (allow_tailnet && is_exact_tailnet_https_mcp_url(url))) {
        return Err(GatewayError::BackendUrlNotAllowed { id: entry.id.clone(), url: entry.url.clone() });
    }
    if !(1 <= entry.timeout_seconds && entry.timeout_seconds <= MAX_BACKEND_TIMEOUT_SECONDS) {
        return Err(GatewayError::BackendTimeoutOutOfRange { id: entry.id.clone() });
    }
    Ok(())
}

/// Backend ids: lowercase, digits, `_` and `-`, starting with a letter or
/// digit, at most 64 bytes. Ambiguous spellings are rejected, never
/// normalized.
pub fn validate_backend_id(id: &str) -> (r: Result<(), GatewayError>)
    ensures
        r is Ok <==> id_rule_violated(id@) is None,
        r matches Err(e) ==> is_id_error(e, id@),
{
    let rule = if id.unicode_len() == 0 {
        Some(IdRule::Empty)
    } else if id.len() > MAX_NAME_BYTES {
        Some(IdRule::TooLong)
    } else if !lower_alnum(id.get_char(0)) {
        Some(IdRule::BadStart)
    } else if !only_name_chars(id) {
        Some(IdRule::BadChar)
    } else {
        None
    };
    match rule {
        Some(rule) => Err(GatewayError::InvalidBackendId { id: owned(id), rule }),
        None => Ok(()),
    }
}

/// Whether `prefix` is one of [`RESERVED_PREFIXES`].
pub fn is_reserved(prefix: &str) -> (r: bool)
    ensures
        r == is_reserved_prefix(prefix@),
{
    str_eq(prefix, RESERVED_PREFIXES[0]) || str_eq(prefix, RESERVED_PREFIXES[1]) || str_eq(
        prefix,
        RESERVED_PREFIXES[2],
    )
}

/// Prefixes are explicit: non-empty, at most 64 bytes, lowercase, and
/// terminated by the `_` namespace separator. Missing separators and
/// reserved prefixes fail.
pub fn validate_backend_prefix(prefix: &str) -> (r: Result<(), GatewayError>)
    ensures
        r is Ok <==> prefix_rule_violated(prefix@) is None,
        r matches Err(e) ==> is_prefix_error(e, prefix@),
{
    let n = prefix.unicode_len();
    let rule = if n == 0 {
        Some(PrefixRule::Empty)
    } else if prefix.len() > MAX_NAME_BYTES {
        Some(PrefixRule::TooLong)
    } else if prefix.get_char(n - 1) != '_' {
        Some(PrefixRule::MissingSeparator)
    } else if n == 1 {
        Some(PrefixRule::EmptyStem)
    } else {
        let stem = prefix.substring_char(0, n - 1);
        assert(stem@ =~= prefix@.drop_last());
        if !only_name_chars(stem) {
            Some(PrefixRule::BadChar)
        } else if is_reserved(prefix) {
            Some(PrefixRule::Reserved)
        } else {
            None
        }
    };
    match rule {
        Some(rule) => Err(GatewayError::InvalidBackendPrefix { prefix: owned(prefix), rule }),
        None => Ok(()),
    }
}

/// Backend URLs must be exact loopback Streamable HTTP MCP endpoints:
/// `http://127.0.0.1:<port>/mcp`.
pub fn validate_backend_url(url: &str) -> (r: Result<(), GatewayError>)
    ensures
        r is Ok <==> is_loopback_mcp_url(url@),
        r matches Err(e) ==> e matches GatewayError::InvalidBackendUrl { url: u } && u@ == url@,
{
    if is_exact_loopback_mcp_url(url) {
        Ok(())
    } else {
        Err(GatewayError::InvalidBackendUrl { url: owned(url) })
    }
}

/// The strict loopback URL rule shared by the public model and the legacy
/// adapter.
pub fn is_exact_loopback_mcp_url(url: &str) -> (r: bool)
    ensures
        r == is_loopback_mcp_url(url@),
{
    if !starts_with(url, LOOPBACK_URL_PREFIX) {
        return false;
    }
    let plen = LOOPBACK_URL_PREFIX.unicode_len();
    let n = url.unicode_len();
    let rest = url.substring_char(plen, n);
    assert(rest@ =~= url@.skip(plen as int));
    let m = rest.unicode_len();
    let k = find_char(rest, '/', 0);
    proof {
        lemma_find_char_from(rest@, '/', 0);
    }
    if k >= m {
        return false;
    }
    let path = rest.substring_char(k + 1, m);
    assert(path@ =~= rest@.skip(k + 1));
    if !str_eq(path, MCP_PATH) {
        return false;
    }
    let port = rest.substring_char(0, k);
    assert(port@ =~= rest@.take(k as int));
    match parse_u16(port) {
        Some(p) => p > 0,
        None => false,
    }
}

fn host_char(c: char) -> (r: bool)
    ensures
        r == is_host_char(c),
{
    (c >= 'a' && c <= 'z') || (c >= '0' && c <= '9') || c == '-' || c == '.'
}

/// Whether `s` ends with `suffix`.
fn ends_with(s: &str, suffix: &str) -> (r: bool)
    ensures
        r == suffix@.is_suffix_of(s@),
{
    let n = s.unicode_len();
    let m = suffix.unicode_len();
    if m > n {
        return false;
    }
    let tail = s.substring_char(n - m, n);
    str_eq(tail, suffix)
}

/// The narrow Tailscale HTTPS rule: `https://<stem>.ts.net/mcp`.
pub fn is_exact_tailnet_https_mcp_url(url: &str) -> (r: bool)
    ensures
        r == is_tailnet_https_mcp_url(url@),
{
    if !starts_with(url, TAILNET_URL_PREFIX) || !ends_with(url, TAILNET_URL_SUFFIX) {
        return false;
    }
    let plen = TAILNET_URL_PREFIX.unicode_len();
    let slen = TAILNET_URL_SUFFIX.unicode_len();
    let n = url.unicode_len();
    if n - plen <= slen {
        return false;
    }
    let stem = url.substring_char(plen, n - slen);
    assert(stem@ =~= url@.subrange(plen as int, n - slen));
    let sn = stem.unicode_len();
    let mut i: usize = 0;
    while i < sn
        invariant
            sn == stem@.len(),
            i <= sn,
            n == url@.len(),
            plen == TAILNET_URL_PREFIX@.len(),
            slen == TAILNET_URL_SUFFIX@.len(),
            n > plen + slen,
            stem@ == url@.subrange(plen as int, n - slen),
            TAILNET_URL_PREFIX@.is_prefix_of(url@),
            TAILNET_URL_SUFFIX@.is_suffix_of(url@),
            forall|k: int| 0 <= k < i ==> is_host_char(#[trigger] stem@[k]),
        decreases sn - i,
    {
        if !host_char(stem.get_char(i)) {
            assert(!is_host_char(stem@[i as int]));
            return false;
        }
        i = i + 1;
    }
    stem.get_char(0) != '.' && stem.get_char(sn - 1) != '.'
}

} // verus!
