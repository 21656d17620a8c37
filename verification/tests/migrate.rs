use lomway::config::legacy::{
    validate_proxy_policy, validate_proxy_policy_with_remote_backends, LegacyBackend,
    LegacyBackendRule, LegacyConfig, LegacyRule, LegacyToolExposure, LegacyTransport,
};
use lomway::config::migrate::{to_legacy, to_public};
use lomway::config::model::{BackendEntry, GatewayConfig, PolicyConfig, ServerConfig};
use lomway::config::validate::{validate, SCHEMA_VERSION};
use lomway::error::GatewayError;
use lomway::namespace::normalize::NAMESPACE_SEPARATOR;

fn legacy_backend(name: &str, url: Option<&str>) -> LegacyBackend {
    LegacyBackend {
        name: name.to_string(),
        transport: LegacyTransport::Http,
        url: url.map(|u| u.to_string()),
        timeout_seconds: None,
        bearer_token: None,
        has_circuit_breaker: false,
        has_rate_limit: false,
        has_concurrency: false,
        has_retry: false,
        has_outlier_detection: false,
        has_hedging: false,
        has_cache: false,
        mirror_of: None,
        failover_for: None,
        canary_of: None,
        forward_auth: false,
        aliases: 0,
        default_args: 0,
        inject_args: 0,
        param_overrides: 0,
        expose_tools: 0,
        hide_tools: 0,
        expose_resources: 0,
        hide_resources: 0,
        expose_prompts: 0,
        hide_prompts: 0,
        hide_destructive: false,
        read_only_only: false,
    }
}

fn legacy(backends: Vec<LegacyBackend>) -> LegacyConfig {
    LegacyConfig {
        name: "lomway".to_string(),
        version: "0.1.0".to_string(),
        separator: "_".to_string(),
        listen_host: "127.0.0.1".to_string(),
        listen_port: 17777,
        instructions: None,
        shutdown_timeout_seconds: 30,
        hot_reload: false,
        tool_exposure: LegacyToolExposure::Direct,
        tool_discovery: false,
        has_rate_limit: false,
        has_auth: false,
        has_admin_token: false,
        coalesce_requests: false,
        composite_tools: 0,
        cache_backend: "memory".to_string(),
        cache_url: None,
        cache_prefix: "mcp-proxy:".to_string(),
        max_argument_size: Some(1048576),
        audit: true,
        log_level: "info".to_string(),
        json_logs: false,
        backends,
    }
}

fn legacy_six_style() -> LegacyConfig {
    let mut alpha = legacy_backend("alpha", Some("http://127.0.0.1:19001/mcp"));
    alpha.timeout_seconds = Some(20);
    let mut beta = legacy_backend("beta", Some("http://127.0.0.1:19002/mcp"));
    beta.timeout_seconds = Some(20);
    legacy(vec![alpha, beta])
}

fn safe_config() -> LegacyConfig {
    let mut example = legacy_backend("example", Some("http://127.0.0.1:19001/mcp"));
    example.timeout_seconds = Some(30);
    legacy(vec![example])
}

fn public(backends: Vec<BackendEntry>) -> GatewayConfig {
    GatewayConfig {
        schema_version: 1,
        server: Default::default(),
        policy: Default::default(),
        observability: Default::default(),
        backends,
    }
}

#[test]
fn current_style_deployment_maps_to_public_schema() {
    let legacy = legacy_six_style();
    validate_proxy_policy(&legacy).expect("legacy policy");
    let public = to_public(&legacy).expect("migrate");

    assert_eq!(public.schema_version, SCHEMA_VERSION);
    assert_eq!(public.server.host, "127.0.0.1");
    assert_eq!(public.server.port, 17777);
    assert_eq!(public.backends.len(), 2);
    assert_eq!(public.backends[0].id, "alpha");
    assert_eq!(public.backends[0].prefix, "alpha_");
    assert_eq!(public.backends[0].url, "http://127.0.0.1:19001/mcp");
    assert!(!public.backends[0].required);
    assert_eq!(public.backends[0].timeout_seconds, 20);
    validate(&public).expect("migrated config passes public policy");
}

#[test]
fn public_config_maps_back_to_equivalent_legacy_config() {
    let public = GatewayConfig {
        schema_version: 1,
        server: ServerConfig { port: 18888, ..Default::default() },
        policy: Default::default(),
        observability: Default::default(),
        backends: vec![
            BackendEntry {
                id: "fs".to_string(),
                prefix: "fs_".to_string(),
                url: "http://127.0.0.1:18701/mcp".to_string(),
                required: true,
                timeout_seconds: 15,
            },
            BackendEntry {
                id: "calc".to_string(),
                prefix: "calc_".to_string(),
                url: "http://127.0.0.1:18702/mcp".to_string(),
                ..Default::default()
            },
        ],
    };

    let legacy = to_legacy(&public).expect("construct legacy");
    assert_eq!(legacy.listen_host, "127.0.0.1");
    assert_eq!(legacy.listen_port, 18888);
    assert_eq!(legacy.backends.len(), 2);
    assert_eq!(legacy.backends[0].name, "fs");
    assert_eq!(legacy.backends[0].url.as_deref(), Some("http://127.0.0.1:18701/mcp"));
    assert_eq!(legacy.backends[0].timeout_seconds.expect("timeout"), 15);
    assert!(!legacy.has_auth);
    assert!(!legacy.has_admin_token);
    assert!(!legacy.hot_reload);
    assert!(!legacy.tool_discovery);
    validate_proxy_policy(&legacy).expect("legacy policy passes");
}

#[test]
fn empty_public_configuration_maps_to_a_backend_free_legacy_proxy() {
    let public = public(vec![]);
    let legacy = to_legacy(&public).expect("empty public maps to legacy");
    assert!(legacy.backends.is_empty(), "migration never invents backends");
    assert_eq!(legacy.separator, NAMESPACE_SEPARATOR);

    let round_tripped = to_public(&legacy).expect("legacy maps back to public");
    assert!(round_tripped.backends.is_empty());
    assert_eq!(round_tripped.schema_version, SCHEMA_VERSION);
}

#[test]
fn migration_rejects_unmappable_backends() {
    let mut legacy = legacy_six_style();
    legacy.backends[0].transport = LegacyTransport::Stdio;
    legacy.backends[0].url = None;
    let error = to_public(&legacy).expect_err("stdio cannot migrate");
    assert!(error.message().contains("must use HTTP"));
}

#[test]
fn migration_reports_separator_and_url_faults() {
    let mut wrong_separator = legacy_six_style();
    wrong_separator.separator = "/".to_string();
    assert_eq!(to_public(&wrong_separator).err(), Some(GatewayError::MigrateSeparator));

    let mut remote = legacy_six_style();
    remote.backends[1].url = Some("https://example.invalid/mcp".to_string());
    assert_eq!(
        to_public(&remote).err(),
        Some(GatewayError::MigrateUrl {
            name: "beta".to_string(),
            url: "https://example.invalid/mcp".to_string()
        })
    );
}

#[test]
fn invalid_public_configurations_do_not_map_to_legacy() {
    let mut bad = public(vec![]);
    bad.schema_version = 2;
    assert_eq!(to_legacy(&bad).err(), Some(GatewayError::UnsupportedSchemaVersion { found: 2 }));
}

#[test]
fn round_trip_through_legacy_keeps_the_backends() {
    let original = public(vec![
        BackendEntry {
            id: "a".to_string(),
            prefix: "a_".to_string(),
            url: "http://127.0.0.1:19001/mcp".to_string(),
            required: false,
            timeout_seconds: 7,
        },
        BackendEntry {
            id: "b".to_string(),
            prefix: "b_".to_string(),
            url: "http://127.0.0.1:19002/mcp".to_string(),
            required: false,
            timeout_seconds: 30,
        },
    ]);
    let legacy = to_legacy(&original).expect("to legacy");
    validate_proxy_policy(&legacy).expect("derived legacy passes policy");
    let back = to_public(&legacy).expect("back to public");
    assert_eq!(back.backends.len(), 2);
    for (a, b) in original.backends.iter().zip(back.backends.iter()) {
        assert_eq!(a.id, b.id);
        assert_eq!(a.prefix, b.prefix);
        assert_eq!(a.url, b.url);
        assert_eq!(a.required, b.required);
        assert_eq!(a.timeout_seconds, b.timeout_seconds);
    }
    assert_eq!(back.server.host, original.server.host);
    assert_eq!(back.server.port, original.server.port);
}

#[test]
fn legacy_policy_keeps_the_single_backend_population_rule() {
    let legacy = to_legacy(&public(vec![])).expect("map to legacy");
    assert!(legacy.backends.is_empty());
    let error = validate_proxy_policy(&legacy).expect_err("legacy gate keeps >=1 backend");
    assert!(error.message().contains("at least one backend"));
}

#[test]
fn public_policy_can_explicitly_enable_tailnet_https_backend() {
    let mut config = public(vec![BackendEntry {
        id: "workbridge_mac".to_string(),
        prefix: "workbridge_mac_".to_string(),
        url: "https://workbridge-mac.example-tailnet.ts.net/mcp".to_string(),
        required: false,
        timeout_seconds: 30,
    }]);
    config.policy = PolicyConfig { allow_non_loopback_backends: true, ..Default::default() };
    let legacy = to_legacy(&config).expect("map to runtime config");
    assert!(validate_proxy_policy(&legacy).is_err(), "legacy entry point remains loopback-only");
    validate_proxy_policy_with_remote_backends(&legacy, true)
        .expect("public opt-in admits the narrow Tailscale HTTPS form");
}

#[test]
fn accepts_minimal_safe_production_policy() {
    validate_proxy_policy(&safe_config()).expect("safe config should pass");
}

#[test]
fn rejects_non_loopback_listener() {
    let mut config = safe_config();
    config.listen_host = "0.0.0.0".to_string();
    let error = validate_proxy_policy(&config).expect_err("non-loopback bind must fail");
    assert!(error.message().contains("127.0.0.1"));
}

#[test]
fn rejects_non_http_or_non_loopback_backends() {
    let mut stdio = safe_config();
    stdio.backends[0].transport = LegacyTransport::Stdio;
    stdio.backends[0].url = None;
    let error = validate_proxy_policy(&stdio).expect_err("gateway must not own backend processes");
    assert!(error.message().contains("must use HTTP"));

    for url in [
        "https://example.invalid/mcp",
        "http://127.0.0.1:19001/nested/mcp",
        "http://127.0.0.1:not-a-port/mcp",
    ] {
        let mut config = safe_config();
        config.backends[0].url = Some(url.to_string());
        let error = validate_proxy_policy(&config).expect_err("southbound traffic must stay local");
        assert!(error.message().contains("loopback"));
    }
}

#[test]
fn rejects_schema_rewriting_and_auth_forwarding() {
    let mut alias = safe_config();
    alias.backends[0].aliases = 1;
    let error = validate_proxy_policy(&alias).expect_err("surface rewriting must fail");
    assert!(error.message().contains("schema/capability rewriting"), "{}", error.message());

    let mut forward = safe_config();
    forward.backends[0].forward_auth = true;
    let error = validate_proxy_policy(&forward).expect_err("surface rewriting must fail");
    assert!(error.message().contains("forward_auth"), "{}", error.message());

    let mut hide = safe_config();
    hide.backends[0].hide_tools = 1;
    let error = validate_proxy_policy(&hide).expect_err("surface rewriting must fail");
    assert!(error.message().contains("schema/capability rewriting"), "{}", error.message());
}

#[test]
fn rejects_wrong_namespace_separator() {
    let mut config = safe_config();
    config.separator = "/".to_string();
    let error = validate_proxy_policy(&config).expect_err("separator drift must fail");
    assert!(error.message().contains("separator"));
}

#[test]
fn rejects_hot_reload_until_gateway_policy_is_revalidated_on_reload() {
    let mut config = safe_config();
    config.hot_reload = true;
    let error = validate_proxy_policy(&config).expect_err("hot reload must fail closed in v1");
    assert!(error.message().contains("hot_reload"));
}

#[test]
fn rejects_admin_token_when_admin_plane_is_not_served() {
    let mut config = safe_config();
    config.has_admin_token = true;
    let error = validate_proxy_policy(&config).expect_err("v1 gateway has no admin plane");
    assert!(error.message().contains("admin_token"));
}

#[test]
fn rejects_search_or_discovery_exposure() {
    let mut config = safe_config();
    config.tool_discovery = true;
    let error = validate_proxy_policy(&config).expect_err("discovery tools expand control surface");
    assert!(error.message().contains("tool_discovery"));
}

#[test]
fn rejects_retry_hedging_and_cache_per_backend() {
    let mut retry = safe_config();
    retry.backends[0].has_retry = true;
    let mut hedging = safe_config();
    hedging.backends[0].has_hedging = true;
    let mut cache = safe_config();
    cache.backends[0].has_cache = true;
    for (name, config) in [("retry", retry), ("hedging", hedging), ("cache", cache)] {
        let error = validate_proxy_policy(&config).expect_err("unsafe middleware must fail");
        assert!(error.message().contains(name), "unexpected error: {}", error.message());
    }
}

#[test]
fn rejects_fanout_failover_and_request_coalescing() {
    for name in ["mirror", "failover", "canary"] {
        let mut config = safe_config();
        let mut other = legacy_backend("other", Some("http://127.0.0.1:19002/mcp"));
        match name {
            "mirror" => other.mirror_of = Some("example".to_string()),
            "failover" => other.failover_for = Some("example".to_string()),
            _ => other.canary_of = Some("example".to_string()),
        }
        config.backends.push(other);
        let error = validate_proxy_policy(&config).expect_err("fanout/failover must fail");
        assert!(error.message().contains(name), "unexpected error: {}", error.message());
    }

    let mut config = safe_config();
    config.coalesce_requests = true;
    let error = validate_proxy_policy(&config).expect_err("coalescing is not part of v1 policy");
    assert!(error.message().contains("coalesce"));
}

#[test]
fn global_rules_are_checked_in_order() {
    let mut config = safe_config();
    config.tool_exposure = LegacyToolExposure::Search;
    config.has_rate_limit = true;
    assert_eq!(
        validate_proxy_policy(&config),
        Err(GatewayError::LegacyPolicy { rule: LegacyRule::ToolExposure })
    );
    config.tool_exposure = LegacyToolExposure::Direct;
    assert_eq!(
        validate_proxy_policy(&config),
        Err(GatewayError::LegacyPolicy { rule: LegacyRule::RateLimit })
    );
    config.has_rate_limit = false;
    config.has_auth = true;
    assert_eq!(
        validate_proxy_policy(&config),
        Err(GatewayError::LegacyPolicy { rule: LegacyRule::NorthboundAuth })
    );
    config.has_auth = false;
    config.composite_tools = 1;
    assert_eq!(
        validate_proxy_policy(&config),
        Err(GatewayError::LegacyPolicy { rule: LegacyRule::CompositeTools })
    );
    config.composite_tools = 0;
    config.cache_url = Some("redis://x".to_string());
    assert_eq!(
        validate_proxy_policy(&config),
        Err(GatewayError::LegacyPolicy { rule: LegacyRule::Cache })
    );
    config.cache_url = None;
    config.max_argument_size = None;
    assert_eq!(
        validate_proxy_policy(&config),
        Err(GatewayError::LegacyPolicy { rule: LegacyRule::ArgumentBound })
    );
    config.max_argument_size = Some(1048577);
    assert!(validate_proxy_policy(&config).is_err());
    config.max_argument_size = Some(1);
    assert!(validate_proxy_policy(&config).is_ok());
}

#[test]
fn backend_rules_name_the_backend() {
    let mut config = safe_config();
    config.backends[0].has_outlier_detection = true;
    assert_eq!(
        validate_proxy_policy(&config),
        Err(GatewayError::LegacyBackendPolicy {
            name: "example".to_string(),
            rule: LegacyBackendRule::Middleware
        })
    );
    assert_eq!(
        validate_proxy_policy(&config).unwrap_err().message(),
        "backend 'example' configures middleware outside the v1 timeout-only policy"
    );
}

#[test]
fn crate_level_policy_gate_is_the_deployment_policy() {
    assert!(lomway::validate_policy(&safe_config()).is_ok());
    assert!(lomway::gateway::validate_proxy_policy(&legacy(vec![])).is_err());
    assert_eq!(lomway::DEFAULT_SERVER_NAME, "lomway");
}

fn public_entry(id: &str, port: u16, required: bool) -> BackendEntry {
    BackendEntry {
        id: id.to_string(),
        prefix: format!("{id}_"),
        url: format!("http://127.0.0.1:{port}/mcp"),
        required,
        timeout_seconds: 30,
    }
}

#[test]
fn fixtures_cover_zero_one_and_many_backend_populations() {
    let zero = public(vec![]);
    validate(&zero).expect("zero-backend configuration validates");
    assert!(zero.backends.is_empty());

    let one = public(vec![public_entry("alpha", 19001, true)]);
    validate(&one).expect("one-backend configuration validates");
    assert_eq!(one.backends[0].id, "alpha");
    assert_eq!(one.backends[0].prefix, "alpha_");
    assert!(one.backends[0].required);

    let many = public(vec![
        public_entry("alpha", 19001, true),
        public_entry("beta", 19002, true),
        public_entry("gamma", 19003, false),
    ]);
    validate(&many).expect("many-backend configuration validates");
    let ids: Vec<_> = many.backends.iter().map(|backend| backend.id.as_str()).collect();
    assert_eq!(ids, ["alpha", "beta", "gamma"]);
    let required: Vec<_> = many.backends.iter().map(|backend| backend.required).collect();
    assert_eq!(required, [true, true, false]);

    let zero_legacy = to_legacy(&zero).expect("zero-backend configuration maps to legacy");
    assert!(zero_legacy.backends.is_empty(), "migration never invents backends");
    let error = lomway::validate_policy(&zero_legacy)
        .expect_err("the deployment gate must keep requiring at least one backend");
    assert!(error.message().contains("at least one backend"), "{}", error.message());

    let one_legacy = to_legacy(&one).expect("one-backend configuration maps to legacy");
    lomway::validate_policy(&one_legacy).expect("one-backend configuration satisfies the deployment policy");
    let names: Vec<_> = one_legacy.backends.iter().map(|backend| backend.name.as_str()).collect();
    assert_eq!(names, ["alpha"]);

    let many_legacy = to_legacy(&many).expect("many-backend configuration maps to legacy");
    lomway::validate_policy(&many_legacy).expect("many-backend configuration satisfies the deployment policy");
    let names: Vec<_> = many_legacy.backends.iter().map(|backend| backend.name.as_str()).collect();
    assert_eq!(names, ["alpha", "beta", "gamma"]);
}
