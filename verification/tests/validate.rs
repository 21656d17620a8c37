use lomway::backend::descriptor::BackendDescriptor;
use lomway::backend::registry::BackendRegistry;
use lomway::config::model::{BackendEntry, GatewayConfig};
use lomway::config::validate::{
    validate, validate_backend_id, validate_backend_prefix, validate_backend_url,
    validate_schema_version, validate_server, MAX_ARGUMENT_SIZE_BYTES, SCHEMA_VERSION,
};
use lomway::error::{GatewayError, IdRule, PrefixRule};
use lomway::namespace::normalize::{mcp_name_from_prefix, public_tool_name};
use std::time::Duration;

fn entry(id: &str, prefix: &str, url: &str) -> BackendEntry {
    BackendEntry {
        id: id.to_string(),
        prefix: prefix.to_string(),
        url: url.to_string(),
        ..Default::default()
    }
}

fn config(backends: Vec<BackendEntry>) -> GatewayConfig {
    GatewayConfig {
        schema_version: SCHEMA_VERSION,
        server: Default::default(),
        observability: Default::default(),
        policy: Default::default(),
        backends,
    }
}

#[test]
fn accepts_valid_public_config() {
    validate(&config(vec![
        entry("fs", "fs_", "http://127.0.0.1:8001/mcp"),
        entry("browser", "browser_", "http://127.0.0.1:8002/mcp"),
    ]))
    .expect("valid config");
}

#[test]
fn rejects_unsupported_schema_versions() {
    let error = validate_schema_version(2).expect_err("future version");
    assert!(error.message().contains("unsupported schema_version 2"));
    let error = validate_schema_version(0).expect_err("zero version");
    assert!(error.message().contains("unsupported schema_version 0"));
}

#[test]
fn rejects_non_loopback_listener_and_backends() {
    let error = validate_server("0.0.0.0", 17777).expect_err("wildcard host");
    assert!(error.message().contains("127.0.0.1"));

    let error = validate_backend_url("https://example.invalid/mcp").expect_err("remote URL");
    assert!(error.message().contains("loopback"));

    let error =
        validate_backend_url("http://127.0.0.1:8001/nested/mcp").expect_err("nested path");
    assert!(error.message().contains("loopback"));

    let error = validate_backend_url("http://127.0.0.1:not-a-port/mcp").expect_err("bad port");
    assert!(error.message().contains("loopback"));
}

#[test]
fn rejects_escaped_policy_flags() {
    let mut raw = config(vec![entry("a", "a_", "http://127.0.0.1:8001/mcp")]);
    raw.policy.hot_reload = true;
    assert!(validate(&raw).is_err());
    raw.policy.hot_reload = false;
    raw.policy.allow_non_loopback_backends = true;
    assert!(validate(&raw).is_err());
    raw.policy.allow_non_loopback_backends = false;
    raw.policy.max_argument_size_bytes = MAX_ARGUMENT_SIZE_BYTES + 1;
    assert!(validate(&raw).is_err());
    raw.policy.max_argument_size_bytes = 0;
    assert!(validate(&raw).is_err());
}

#[test]
fn accepts_zero_one_and_many_backends() {
    validate(&config(vec![])).expect("zero backends are valid");

    validate(&config(vec![entry("fs", "fs_", "http://127.0.0.1:8001/mcp")]))
        .expect("one backend is valid");

    validate(&config(vec![
        entry("fs", "fs_", "http://127.0.0.1:8001/mcp"),
        entry("browser", "browser_", "http://127.0.0.1:8002/mcp"),
        entry("calc", "calc_", "http://127.0.0.1:8003/mcp"),
    ]))
    .expect("many backends are valid");
}

#[test]
fn unrestricted_population_still_validates_every_present_entry() {
    let error = validate(&config(vec![entry("Bad", "bad_", "http://127.0.0.1:8001/mcp")]))
        .expect_err("ambiguous id still rejected");
    assert!(error.message().contains("not normalized"));
}

#[test]
fn rejects_duplicate_ids_and_prefixes() {
    let error = validate(&config(vec![
        entry("a", "a_", "http://127.0.0.1:8001/mcp"),
        entry("a", "b_", "http://127.0.0.1:8002/mcp"),
    ]))
    .expect_err("duplicate id");
    assert!(error.message().contains("duplicate backend id"));

    let error = validate(&config(vec![
        entry("a", "dup_", "http://127.0.0.1:8001/mcp"),
        entry("b", "dup_", "http://127.0.0.1:8002/mcp"),
    ]))
    .expect_err("duplicate prefix");
    assert!(error.message().contains("duplicate backend prefix"));
}

#[test]
fn rejects_ambiguous_ids_and_prefixes_without_normalization() {
    let error = validate_backend_id("MyBackend").expect_err("uppercase id");
    assert!(error.message().contains("not normalized"));

    let error = validate_backend_prefix("fs").expect_err("missing separator");
    assert!(error.message().contains("'_' namespace separator"));

    let error = validate_backend_prefix("FS_").expect_err("uppercase prefix");
    assert!(error.message().contains("not normalized"));

    let error = validate_backend_prefix("proxy_").expect_err("reserved prefix");
    assert!(error.message().contains("reserved"));

    let error = validate_backend_prefix("lomway_").expect_err("reserved lomway prefix");
    assert!(error.message().contains("reserved"));

    let error = validate_backend_prefix("lmg_").expect_err("reserved legacy lmg prefix");
    assert!(error.message().contains("reserved"));

    let error = validate_backend_prefix("_").expect_err("empty stem");
    assert!(error.message().contains("at least one character"));
}

#[test]
fn descriptors_are_constructed_only_from_validated_config() {
    let good =
        BackendDescriptor::try_from_entry(&entry("fs", "fs_", "http://127.0.0.1:18701/mcp"))
            .expect("valid entry");
    assert_eq!(good.mcp_name(), "fs");
    assert_eq!(good.prefix(), "fs_");
    assert_eq!(good.url(), "http://127.0.0.1:18701/mcp");
    assert!(good.required());
    assert_eq!(good.timeout(), Duration::from_secs(30));

    let bad_url = BackendDescriptor::try_from_entry(&entry(
        "remote",
        "remote_",
        "https://example.invalid/mcp",
    ))
    .expect_err("non-loopback URL must be rejected");
    assert!(bad_url.message().contains("loopback"));

    let bad_prefix =
        BackendDescriptor::try_from_entry(&entry("fs", "fs", "http://127.0.0.1:18701/mcp"))
            .expect_err("prefix without separator must be rejected");
    assert!(bad_prefix.message().contains("separator"));

    let bad_id =
        BackendDescriptor::try_from_entry(&entry("Fs", "fs_", "http://127.0.0.1:18701/mcp"))
            .expect_err("ambiguous id must be rejected");
    assert!(bad_id.message().contains("not normalized"));

    let bad_timeout = BackendDescriptor::try_from_entry(&BackendEntry {
        timeout_seconds: 0,
        ..entry("fs", "fs_", "http://127.0.0.1:18701/mcp")
    })
    .expect_err("zero timeout must be rejected");
    assert!(bad_timeout.message().contains("timeout_seconds"));
}

#[test]
fn supports_zero_one_and_many_backends() {
    assert!(BackendRegistry::from_config(&config(vec![]))
        .expect("zero backends are a valid registry")
        .is_empty());

    let one = BackendRegistry::from_config(&config(vec![entry(
        "a",
        "a_",
        "http://127.0.0.1:19001/mcp",
    )]))
    .expect("one backend");
    assert_eq!(one.len(), 1);

    let many = BackendRegistry::from_config(&config(vec![
        entry("a", "a_", "http://127.0.0.1:19001/mcp"),
        entry("b", "b_", "http://127.0.0.1:19002/mcp"),
        entry("c", "c_", "http://127.0.0.1:19003/mcp"),
    ]))
    .expect("many backends");
    let ids: Vec<_> = many.iter().map(|backend| backend.id()).collect();
    assert_eq!(ids, vec!["a", "b", "c"], "order matches configuration order");
}

#[test]
fn lookup_by_id_is_exact() {
    let registry = BackendRegistry::from_config(&config(vec![
        entry("workbridge", "workbridge_", "http://127.0.0.1:19001/mcp"),
        entry("memory", "memory_", "http://127.0.0.1:19002/mcp"),
    ]))
    .expect("registry");
    assert_eq!(registry.get("memory").expect("found").prefix(), "memory_");
    assert!(registry.get("mem").is_none(), "lookup is exact, not fuzzy");
    assert!(registry.get("Memory").is_none(), "ids are never normalized");
}

#[test]
fn explicit_policy_allows_tailnet_https_backend() {
    let mut public = config(vec![entry(
        "workbridge_mac",
        "workbridge_mac_",
        "https://workbridge-mac.example-tailnet.ts.net/mcp",
    )]);
    public.policy.allow_non_loopback_backends = true;
    let registry = BackendRegistry::from_config(&public).expect("tailnet backend registry");
    assert_eq!(registry.len(), 1);
    assert_eq!(
        registry.get("workbridge_mac").expect("mac backend").url(),
        "https://workbridge-mac.example-tailnet.ts.net/mcp"
    );
}

#[test]
fn contains_no_hard_coded_private_backend_names() {
    let registry = BackendRegistry::from_descriptors(vec![BackendDescriptor::try_from_entry(
        &entry("anything", "anything_", "http://127.0.0.1:19001/mcp"),
    )
    .expect("valid")]);
    assert_eq!(registry.get("anything").expect("found").id(), "anything");
}

#[test]
fn prefix_maps_to_mcp_name_and_back() {
    assert_eq!(mcp_name_from_prefix("fs_"), Some("fs"));
    assert_eq!(mcp_name_from_prefix("my_fs_"), Some("my_fs"));
    assert_eq!(
        public_tool_name("fs_", "read_file"),
        "fs_read_file",
        "final names are prefix + upstream name, no rewriting"
    );
}

#[test]
fn ambiguous_prefixes_are_never_silently_normalized() {
    assert_eq!(
        mcp_name_from_prefix("fs"),
        None,
        "missing separator is rejected, not auto-appended"
    );
    assert_eq!(mcp_name_from_prefix("_"), None, "empty stem is rejected, not collapsed");
    assert_eq!(mcp_name_from_prefix(""), None, "empty prefix is rejected");
}

// ---- further cases of the validation rules ----

#[test]
fn each_id_rule_is_reported_with_its_variant() {
    assert_eq!(
        validate_backend_id(""),
        Err(GatewayError::InvalidBackendId { id: String::new(), rule: IdRule::Empty })
    );
    let long = "a".repeat(65);
    assert_eq!(
        validate_backend_id(&long),
        Err(GatewayError::InvalidBackendId { id: long.clone(), rule: IdRule::TooLong })
    );
    assert!(validate_backend_id(&"a".repeat(64)).is_ok());
    assert_eq!(
        validate_backend_id("-x"),
        Err(GatewayError::InvalidBackendId { id: "-x".to_string(), rule: IdRule::BadStart })
    );
    assert_eq!(
        validate_backend_id("a.b"),
        Err(GatewayError::InvalidBackendId { id: "a.b".to_string(), rule: IdRule::BadChar })
    );
    assert!(validate_backend_id("0a-b_c").is_ok());
}

#[test]
fn each_prefix_rule_is_reported_with_its_variant() {
    let rule = |p: &str| match validate_backend_prefix(p) {
        Err(GatewayError::InvalidBackendPrefix { rule, .. }) => Some(rule),
        _ => None,
    };
    assert_eq!(rule(""), Some(PrefixRule::Empty));
    assert_eq!(rule(&format!("{}_", "a".repeat(64))), Some(PrefixRule::TooLong));
    assert_eq!(rule("fs"), Some(PrefixRule::MissingSeparator));
    assert_eq!(rule("_"), Some(PrefixRule::EmptyStem));
    assert_eq!(rule("F_"), Some(PrefixRule::BadChar));
    assert_eq!(rule("lmg_"), Some(PrefixRule::Reserved));
    assert!(validate_backend_prefix("a_b-c_").is_ok());
}

#[test]
fn loopback_urls_need_a_port_and_the_exact_mcp_path() {
    assert!(validate_backend_url("http://127.0.0.1:1/mcp").is_ok());
    assert!(validate_backend_url("http://127.0.0.1:65535/mcp").is_ok());
    assert!(validate_backend_url("http://127.0.0.1:0/mcp").is_err());
    assert!(validate_backend_url("http://127.0.0.1:65536/mcp").is_err());
    assert!(validate_backend_url("http://127.0.0.1:/mcp").is_err());
    assert!(validate_backend_url("http://127.0.0.1:80/mcp/").is_err());
    assert!(validate_backend_url("http://localhost:80/mcp").is_err());
    assert_eq!(
        validate_backend_url("ftp://x"),
        Err(GatewayError::InvalidBackendUrl { url: "ftp://x".to_string() })
    );
}

#[test]
fn listener_rules_report_the_first_violation() {
    assert_eq!(validate_server("127.0.0.1", 0), Err(GatewayError::ZeroListenerPort));
    assert_eq!(validate_server("0.0.0.0", 0), Err(GatewayError::NonLoopbackListener));
    assert!(validate_server("127.0.0.1", 1).is_ok());
    assert_eq!(
        validate_schema_version(7),
        Err(GatewayError::UnsupportedSchemaVersion { found: 7 })
    );
    assert_eq!(
        validate_schema_version(7).unwrap_err().message(),
        "unsupported schema_version 7: this release supports only 1"
    );
}

#[test]
fn policy_flags_are_checked_in_order() {
    let mut raw = config(vec![]);
    raw.policy.allow_non_loopback_listener = true;
    raw.policy.hot_reload = true;
    assert_eq!(validate(&raw), Err(GatewayError::NonLoopbackListenerPolicy));
    raw.policy.allow_non_loopback_listener = false;
    assert_eq!(validate(&raw), Err(GatewayError::HotReloadPolicy));
    raw.policy.hot_reload = false;
    raw.policy.max_argument_size_bytes = 0;
    assert_eq!(validate(&raw), Err(GatewayError::ArgumentSizeOutOfRange));
    raw.policy.max_argument_size_bytes = MAX_ARGUMENT_SIZE_BYTES;
    assert!(validate(&raw).is_ok());
}

#[test]
fn non_loopback_backends_need_a_tailnet_backend_to_be_opted_in() {
    let mut raw = config(vec![entry("a", "a_", "http://127.0.0.1:8001/mcp")]);
    raw.policy.allow_non_loopback_backends = true;
    assert_eq!(validate(&raw), Err(GatewayError::NonLoopbackBackendsPolicy));

    let mut remote = config(vec![entry("r", "r_", "https://host.example.ts.net/mcp")]);
    assert_eq!(
        validate(&remote),
        Err(GatewayError::BackendUrlNotAllowed {
            id: "r".to_string(),
            url: "https://host.example.ts.net/mcp".to_string()
        })
    );
    remote.policy.allow_non_loopback_backends = true;
    assert!(validate(&remote).is_ok());

    let mut other = config(vec![entry("r", "r_", "https://example.com/mcp")]);
    other.policy.allow_non_loopback_backends = true;
    assert!(validate(&other).is_err());
}

#[test]
fn backend_timeouts_are_bounded() {
    let mut raw = config(vec![BackendEntry {
        timeout_seconds: 301,
        ..entry("a", "a_", "http://127.0.0.1:8001/mcp")
    }]);
    assert_eq!(
        validate(&raw),
        Err(GatewayError::BackendTimeoutOutOfRange { id: "a".to_string() })
    );
    raw.backends[0].timeout_seconds = 300;
    assert!(validate(&raw).is_ok());
}

#[test]
fn distinct_upstream_names_keep_distinct_final_names() {
    assert_ne!(public_tool_name("fs_", "read"), public_tool_name("fs_", "write"));
    assert_eq!(public_tool_name("fs_", ""), "fs_");
    assert_eq!(mcp_name_from_prefix("a_b_"), Some("a_b"));
}

#[test]
fn defaults_are_conservative() {
    let config = config(vec![]);
    assert!(!config.policy.allow_non_loopback_listener);
    assert!(!config.policy.allow_non_loopback_backends);
    assert!(!config.policy.hot_reload);
    assert_eq!(config.policy.max_argument_size_bytes, MAX_ARGUMENT_SIZE_BYTES);
    assert!(config.observability.audit);
    assert_eq!(config.observability.log_level, "info");
    assert!(!config.observability.json_logs);
    assert_eq!(config.server.host, "127.0.0.1");
    assert_eq!(config.server.port, 17777);
    assert_eq!(config.server.shutdown_timeout_seconds, 30);
    assert_eq!(config.backends.len(), 0);
    let entry = BackendEntry::default();
    assert!(entry.required, "required defaults to true");
    assert_eq!(entry.timeout_seconds, 30);
}
