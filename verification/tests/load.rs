use lomway::config::legacy::{LegacyBackend, LegacyConfig, LegacyToolExposure, LegacyTransport};
use lomway::config::load::{
    choose_config_path, contains_ref, detect_config_format, expand_env_vars_with,
    load_gateway_config, load_gateway_config_with_format, migrate_legacy_config,
    resolve_env_refs_with,
    resolve_legacy_env_with, restore_env_templates, ConfigFormat, ConfigPathChoice, ParsedConfig,
    DEFAULT_CONFIG_CANDIDATES,
};
use lomway::config::model::{BackendEntry, GatewayConfig};
use lomway::error::GatewayError;

fn port_lookup(name: &str) -> Option<String> {
    if name == "LOMWAY_TEST_PORT" {
        Some("18999".to_string())
    } else {
        None
    }
}

#[test]
fn env_refs_resolve_or_fail_loudly() {
    let lookup = |name: &str| {
        if name == "LOMWAY_TEST_PORT" {
            Some("18999".to_string())
        } else {
            None
        }
    };
    let resolved = expand_env_vars_with("http://127.0.0.1:${LOMWAY_TEST_PORT}/mcp", lookup)
        .expect("resolve");
    assert_eq!(resolved, "http://127.0.0.1:18999/mcp");

    let missing = expand_env_vars_with("http://127.0.0.1:${LOMWAY_TEST_PORT}/mcp", |_: &str| None)
        .expect_err("missing var");
    assert!(missing.message().contains("LOMWAY_TEST_PORT"));

    let unterminated = expand_env_vars_with("http://127.0.0.1:${LOMWAY_TEST_PORT", |_: &str| None)
        .expect_err("unterminated");
    assert!(unterminated.message().contains("unterminated"));
}

#[test]
fn detects_public_and_legacy_formats() {
    assert_eq!(
        detect_config_format("schema_version = 1\n").expect("public detect"),
        ConfigFormat::Public
    );
    assert_eq!(
        detect_config_format("[proxy]\nname = \"x\"\n").expect("legacy detect"),
        ConfigFormat::Legacy
    );
    detect_config_format("not toml =").expect_err("invalid toml");
}

#[test]
fn invalid_toml_is_reported_as_such() {
    let error = detect_config_format("[[[").expect_err("not TOML");
    assert!(matches!(error, GatewayError::InvalidToml { .. }));
    assert_eq!(error.message(), "configuration is not valid TOML");
    let cause = error.cause().expect("the parser's account of the fault");
    assert!(cause.starts_with("TOML parse error at line 1, column"), "{cause}");
    assert!(error.full_message().starts_with("configuration is not valid TOML: TOML parse error at line 1"));
    assert_eq!(
        detect_config_format("[server]\nproxy = 1\n"),
        Ok(ConfigFormat::Public),
        "only a top-level proxy table marks the legacy schema"
    );
    assert_eq!(detect_config_format("proxy = 1\n"), Ok(ConfigFormat::Legacy));
}

#[test]
fn expansion_edge_cases() {
    assert_eq!(expand_env_vars_with("no refs", port_lookup), Ok("no refs".to_string()));
    assert_eq!(expand_env_vars_with("", port_lookup), Ok(String::new()));
    assert_eq!(
        expand_env_vars_with("${LOMWAY_TEST_PORT}${LOMWAY_TEST_PORT}", port_lookup),
        Ok("1899918999".to_string())
    );
    assert_eq!(expand_env_vars_with("$ {x} $", port_lookup), Ok("$ {x} $".to_string()));
    assert_eq!(
        expand_env_vars_with("a${}b", port_lookup),
        Err(GatewayError::EmptyEnvRef { input: "a${}b".to_string() })
    );
    assert_eq!(
        expand_env_vars_with("a${X", port_lookup),
        Err(GatewayError::UnterminatedEnvRef { input: "a${X".to_string() })
    );
    assert_eq!(
        expand_env_vars_with("${NOPE}/${LOMWAY_TEST_PORT", port_lookup),
        Err(GatewayError::UnresolvedEnvRef { name: "NOPE".to_string() }),
        "references are expanded left to right; the first failure decides"
    );
    assert_eq!(
        expand_env_vars_with("${LOMWAY_TEST_PORT}/${X", port_lookup),
        Err(GatewayError::UnterminatedEnvRef { input: "${LOMWAY_TEST_PORT}/${X".to_string() })
    );
    assert_eq!(
        expand_env_vars_with("${NOPE}", port_lookup),
        Err(GatewayError::UnresolvedEnvRef { name: "NOPE".to_string() })
    );
    assert_eq!(
        expand_env_vars_with("${NOPE}", port_lookup).unwrap_err().message(),
        "configuration contains unresolved environment reference ${NOPE}"
    );
    assert!(contains_ref("x${y}"));
    assert!(!contains_ref("x$y}"));
}

fn public_with_urls(urls: &[&str]) -> GatewayConfig {
    GatewayConfig {
        schema_version: 1,
        server: Default::default(),
        policy: Default::default(),
        observability: Default::default(),
        backends: urls
            .iter()
            .enumerate()
            .map(|(i, url)| BackendEntry {
                id: format!("b{i}"),
                prefix: format!("b{i}_"),
                url: url.to_string(),
                ..Default::default()
            })
            .collect(),
    }
}

#[test]
fn public_backend_urls_resolve_references() {
    let mut config = public_with_urls(&[
        "http://127.0.0.1:${LOMWAY_TEST_PORT}/mcp",
        "http://127.0.0.1:8001/mcp",
    ]);
    resolve_env_refs_with(&mut config, port_lookup).expect("resolve");
    assert_eq!(config.backends[0].url, "http://127.0.0.1:18999/mcp");
    assert_eq!(config.backends[1].url, "http://127.0.0.1:8001/mcp");
    assert_eq!(config.backends[0].id, "b0");

    let mut missing = public_with_urls(&["http://127.0.0.1:${MISSING}/mcp"]);
    assert_eq!(
        resolve_env_refs_with(&mut missing, port_lookup),
        Err(GatewayError::UnresolvedEnvRef { name: "MISSING".to_string() })
    );
}

#[test]
fn migrated_urls_get_their_references_back() {
    let mut config = public_with_urls(&["http://127.0.0.1:18999/mcp", "http://127.0.0.1:8001/mcp"]);
    let templates = vec![
        "http://127.0.0.1:${LOMWAY_TEST_PORT}/mcp".to_string(),
        "http://127.0.0.1:8001/mcp".to_string(),
    ];
    restore_env_templates(&mut config, &templates, port_lookup).expect("restore");
    assert_eq!(config.backends[0].url, "http://127.0.0.1:${LOMWAY_TEST_PORT}/mcp");
    assert_eq!(config.backends[1].url, "http://127.0.0.1:8001/mcp");

    let mut drifted = public_with_urls(&["http://127.0.0.1:1/mcp"]);
    let templates = vec!["http://127.0.0.1:${LOMWAY_TEST_PORT}/mcp".to_string()];
    assert_eq!(
        restore_env_templates(&mut drifted, &templates, port_lookup),
        Err(GatewayError::TemplateMismatch { id: "b0".to_string() })
    );
}

fn legacy_backend(name: &str, url: Option<&str>) -> LegacyBackend {
    LegacyBackend {
        name: name.to_string(),
        transport: LegacyTransport::Http,
        url: url.map(|u| u.to_string()),
        timeout_seconds: None,
        bearer_token: None,
        has_circuit_breaker: false,
        has_rate_limit: false,
        has_concurrency: false,
        has_retry: false,
        has_outlier_detection: false,
        has_hedging: false,
        has_cache: false,
        mirror_of: None,
        failover_for: None,
        canary_of: None,
        forward_auth: false,
        aliases: 0,
        default_args: 0,
        inject_args: 0,
        param_overrides: 0,
        expose_tools: 0,
        hide_tools: 0,
        expose_resources: 0,
        hide_resources: 0,
        expose_prompts: 0,
        hide_prompts: 0,
        hide_destructive: false,
        read_only_only: false,
    }
}

fn legacy(backends: Vec<LegacyBackend>) -> LegacyConfig {
    LegacyConfig {
        name: "lomway".to_string(),
        version: "0.1.0".to_string(),
        separator: "_".to_string(),
        listen_host: "127.0.0.1".to_string(),
        listen_port: 17777,
        instructions: None,
        shutdown_timeout_seconds: 30,
        hot_reload: false,
        tool_exposure: LegacyToolExposure::Direct,
        tool_discovery: false,
        has_rate_limit: false,
        has_auth: false,
        has_admin_token: false,
        coalesce_requests: false,
        composite_tools: 0,
        cache_backend: "memory".to_string(),
        cache_url: None,
        cache_prefix: "mcp-proxy:".to_string(),
        max_argument_size: Some(1048576),
        audit: true,
        log_level: "info".to_string(),
        json_logs: false,
        backends,
    }
}

#[test]
fn legacy_backend_urls_resolve_env_references_before_policy_validation() {
    let mut config = legacy(vec![legacy_backend(
        "alpha",
        Some("http://127.0.0.1:${LOMWAY_TEST_PORT}/mcp"),
    )]);
    resolve_legacy_env_with(&mut config, |name: &str| {
        if name == "LOMWAY_TEST_PORT" {
            Some("18779".to_string())
        } else {
            None
        }
    })
    .expect("resolve legacy env");
    assert_eq!(config.backends[0].url.as_deref(), Some("http://127.0.0.1:18779/mcp"));
    lomway::config::legacy::validate_proxy_policy(&config)
        .expect("resolved legacy config passes policy");

    let mut missing = legacy(vec![legacy_backend(
        "alpha",
        Some("http://127.0.0.1:${LOMWAY_TEST_PORT}/mcp"),
    )]);
    let error = resolve_legacy_env_with(&mut missing, |_: &str| None).expect_err("missing var");
    assert!(error.message().contains("LOMWAY_TEST_PORT"), "{}", error.message());
}

#[test]
fn legacy_resolution_leaves_plain_and_absent_urls_alone() {
    let mut config = legacy(vec![
        legacy_backend("a", None),
        legacy_backend("b", Some("http://127.0.0.1:1/mcp")),
    ]);
    resolve_legacy_env_with(&mut config, |_: &str| None).expect("nothing to resolve");
    assert_eq!(config.backends[0].url, None);
    assert_eq!(config.backends[1].url.as_deref(), Some("http://127.0.0.1:1/mcp"));
}

#[test]
fn config_path_precedence_is_documented_and_tested() {
    // 1. explicit wins over everything.
    assert_eq!(
        choose_config_path(true, Some("elsewhere.toml"), true, &[true, true]),
        Ok(ConfigPathChoice::Explicit)
    );
    // 2. LOMWAY_CONFIG wins over the default candidates.
    assert_eq!(
        choose_config_path(false, Some("from-env.toml"), true, &[true, true]),
        Ok(ConfigPathChoice::Environment)
    );
    // A missing LOMWAY_CONFIG target fails instead of falling through.
    let error = choose_config_path(false, Some("nope.toml"), false, &[true, true])
        .expect_err("missing LOMWAY_CONFIG target must fail");
    assert_eq!(error, GatewayError::ConfigEnvPathMissing { path: "nope.toml".to_string() });
    assert!(error.message().contains("nope.toml"));
    // 3. default candidates, in order.
    assert_eq!(
        choose_config_path(false, None, false, &[true, true]),
        Ok(ConfigPathChoice::Candidate(0))
    );
    assert_eq!(DEFAULT_CONFIG_CANDIDATES[0], "config/proxy.local.toml");
    assert_eq!(
        choose_config_path(false, None, false, &[false, true]),
        Ok(ConfigPathChoice::Candidate(1))
    );
    assert_eq!(DEFAULT_CONFIG_CANDIDATES[1], "gateway.toml");
    // Nothing found.
    let error = choose_config_path(false, None, false, &[false, false]).expect_err("no config");
    assert!(error.message().contains("--config"));
}

#[test]
fn empty_single_and_many_public_configs_load_cleanly() {
    for urls in [
        vec![],
        vec!["http://127.0.0.1:8001/mcp"],
        vec!["http://127.0.0.1:8001/mcp", "http://127.0.0.1:${LOMWAY_TEST_PORT}/mcp"],
    ] {
        let expected = urls.len();
        let config = load_gateway_config(ParsedConfig::Public(public_with_urls(&urls)), port_lookup)
            .expect("loads cleanly");
        assert_eq!(config.backends.len(), expected);
    }
}

#[test]
fn load_reports_the_on_disk_format() {
    let (format, config) = load_gateway_config_with_format(
        ParsedConfig::Public(public_with_urls(&["http://127.0.0.1:${LOMWAY_TEST_PORT}/mcp"])),
        port_lookup,
    )
    .expect("public load");
    assert_eq!(format, ConfigFormat::Public);
    assert_eq!(config.backends[0].url, "http://127.0.0.1:18999/mcp");

    let (format, config) = load_gateway_config_with_format(
        ParsedConfig::Legacy(legacy(vec![legacy_backend(
            "alpha",
            Some("http://127.0.0.1:${LOMWAY_TEST_PORT}/mcp"),
        )])),
        port_lookup,
    )
    .expect("legacy load");
    assert_eq!(format, ConfigFormat::Legacy);
    assert_eq!(config.backends[0].id, "alpha");
    assert_eq!(config.backends[0].prefix, "alpha_");
    assert_eq!(config.backends[0].url, "http://127.0.0.1:18999/mcp");
    assert!(!config.backends[0].required);
}

#[test]
fn loading_fails_at_the_first_failing_step() {
    let error = load_gateway_config(
        ParsedConfig::Public(public_with_urls(&["http://127.0.0.1:${MISSING}/mcp"])),
        port_lookup,
    )
    .unwrap_err();
    assert_eq!(error, GatewayError::UnresolvedEnvRef { name: "MISSING".to_string() });

    let mut invalid = public_with_urls(&["http://127.0.0.1:8001/mcp"]);
    invalid.schema_version = 3;
    assert_eq!(
        load_gateway_config(ParsedConfig::Public(invalid), port_lookup).unwrap_err(),
        GatewayError::UnsupportedSchemaVersion { found: 3 }
    );

    let error = load_gateway_config(ParsedConfig::Legacy(legacy(vec![])), port_lookup)
        .unwrap_err();
    assert!(error.message().contains("at least one backend"));
}

#[test]
fn migration_writes_public_schema_and_preserves_env_references() {
    let legacy = legacy(vec![legacy_backend(
        "alpha",
        Some("http://127.0.0.1:${LOMWAY_TEST_PORT}/mcp"),
    )]);
    let public = migrate_legacy_config(legacy, |name: &str| {
        if name == "LOMWAY_TEST_PORT" {
            Some("18777".to_string())
        } else {
            None
        }
    })
    .expect("migrate");
    assert_eq!(public.schema_version, 1);
    assert_eq!(public.backends.len(), 1);
    assert_eq!(public.backends[0].id, "alpha");
    assert_eq!(
        public.backends[0].url, "http://127.0.0.1:${LOMWAY_TEST_PORT}/mcp",
        "env references must be preserved, not baked in"
    );
    assert!(!public.backends[0].required, "migrated backends stay optional");
}

#[test]
fn migration_refuses_a_file_that_would_not_reload_identically() {
    let calls = std::cell::Cell::new(0u32);
    let drifting = |_: &str| {
        calls.set(calls.get() + 1);
        Some(calls.get().to_string())
    };
    let legacy = legacy(vec![legacy_backend("alpha", Some("http://127.0.0.1:${PORT}/mcp"))]);
    assert_eq!(
        migrate_legacy_config(legacy, drifting).err(),
        Some(GatewayError::TemplateMismatch { id: "alpha".to_string() })
    );
}

#[test]
fn migration_checks_policy_and_public_rules() {
    let mut remote = legacy(vec![legacy_backend("alpha", Some("https://example.invalid/mcp"))]);
    assert!(migrate_legacy_config(remote.clone(), port_lookup).is_err());
    remote.backends[0].url = Some("http://127.0.0.1:1/mcp".to_string());
    remote.backends[0].name = "Alpha".to_string();
    let error = migrate_legacy_config(remote, port_lookup).unwrap_err();
    assert!(error.message().contains("not normalized"), "{}", error.message());
}
