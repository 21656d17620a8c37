use lomway::config::legacy::{LegacyBackend, LegacyConfig, LegacyToolExposure, LegacyTransport};
use lomway::config::migrate::to_legacy;
use lomway::config::model::{BackendEntry, GatewayConfig, PolicyConfig};
use lomway::gateway::auth::{
    audience_matches, bearer_token, challenge, endpoints_from_parts, oauth_endpoints,
    resource_metadata, scope_granted, token_is_authorized, Audience, Introspection,
    NorthboundOAuthConfig,
};
use lomway::gateway::reconnect::{
    endpoint_from_parts, endpoint_from_url, loopback_port, should_probe, specs, ReconnectState,
};
use lomway::gateway::url::UrlParts;
use lomway::gateway::router::{is_admin_path, readiness_status};

#[test]
fn reconnect_endpoint_supports_loopback_and_tailnet_https() {
    assert_eq!(
        endpoint_from_url("http://127.0.0.1:7676/mcp"),
        Some(("127.0.0.1".to_string(), 7676))
    );
    assert_eq!(
        endpoint_from_url("https://workbridge-mac.example-tailnet.ts.net/mcp"),
        Some(("workbridge-mac.example-tailnet.ts.net".to_string(), 443))
    );
    assert_eq!(endpoint_from_url("https://example.com/not-mcp"), None);
}

#[test]
fn endpoint_parts_need_the_mcp_path_host_and_port() {
    let parts = |path: &str, host: Option<&str>, port: Option<u16>| UrlParts {
        path: path.to_string(),
        host: host.map(|h| h.to_string()),
        port,
        origin: "https://h".to_string(),
    };
    assert_eq!(
        endpoint_from_parts(Some(parts("/mcp", Some("h"), Some(1)))),
        Some(("h".to_string(), 1))
    );
    assert_eq!(endpoint_from_parts(Some(parts("/mcp/", Some("h"), Some(1)))), None);
    assert_eq!(endpoint_from_parts(Some(parts("/mcp", None, Some(1)))), None);
    assert_eq!(endpoint_from_parts(Some(parts("/mcp", Some("h"), None))), None);
    assert_eq!(endpoint_from_parts(None), None);
    assert_eq!(endpoint_from_url("not a url"), None);
}

#[test]
fn loopback_ports() {
    assert_eq!(loopback_port("http://127.0.0.1:7676/mcp"), Some(7676));
    assert_eq!(loopback_port("http://127.0.0.1:0/mcp"), None);
    assert_eq!(loopback_port("http://127.0.0.1:7676/other"), None);
    assert_eq!(loopback_port("https://127.0.0.1:7676/mcp"), None);
}

#[test]
fn reconnect_specs_include_configured_tailnet_backend() {
    let public = GatewayConfig {
        schema_version: 1,
        server: Default::default(),
        policy: PolicyConfig { allow_non_loopback_backends: true, ..Default::default() },
        observability: Default::default(),
        backends: vec![BackendEntry {
            id: "workbridge_mac".to_string(),
            prefix: "workbridge_mac_".to_string(),
            url: "https://workbridge-mac.example-tailnet.ts.net/mcp".to_string(),
            required: false,
            timeout_seconds: 300,
        }],
    };
    let runtime = to_legacy(&public).expect("runtime config");
    let reconnect = specs(&runtime);
    assert_eq!(reconnect.len(), 1);
    assert_eq!(reconnect[0].name, "workbridge_mac");
    assert!(reconnect[0].remote);
    assert_eq!(reconnect[0].host, "workbridge-mac.example-tailnet.ts.net");
    assert_eq!(reconnect[0].port, 443);
    assert_eq!(reconnect[0].timeout_seconds, Some(300));
}

fn legacy_backend(name: &str, url: Option<&str>) -> LegacyBackend {
    LegacyBackend {
        name: name.to_string(),
        transport: LegacyTransport::Http,
        url: url.map(|u| u.to_string()),
        timeout_seconds: None,
        bearer_token: Some("t".to_string()),
        has_circuit_breaker: false,
        has_rate_limit: false,
        has_concurrency: false,
        has_retry: false,
        has_outlier_detection: false,
        has_hedging: false,
        has_cache: false,
        mirror_of: None,
        failover_for: None,
        canary_of: None,
        forward_auth: false,
        aliases: 0,
        default_args: 0,
        inject_args: 0,
        param_overrides: 0,
        expose_tools: 0,
        hide_tools: 0,
        expose_resources: 0,
        hide_resources: 0,
        expose_prompts: 0,
        hide_prompts: 0,
        hide_destructive: false,
        read_only_only: false,
    }
}

#[test]
fn backends_without_an_endpoint_are_not_monitored() {
    let config = LegacyConfig {
        name: "lomway".to_string(),
        version: "0.1.0".to_string(),
        separator: "_".to_string(),
        listen_host: "127.0.0.1".to_string(),
        listen_port: 17777,
        instructions: None,
        shutdown_timeout_seconds: 30,
        hot_reload: false,
        tool_exposure: LegacyToolExposure::Direct,
        tool_discovery: false,
        has_rate_limit: false,
        has_auth: false,
        has_admin_token: false,
        coalesce_requests: false,
        composite_tools: 0,
        cache_backend: "memory".to_string(),
        cache_url: None,
        cache_prefix: "mcp-proxy:".to_string(),
        max_argument_size: Some(1048576),
        audit: true,
        log_level: "info".to_string(),
        json_logs: false,
        backends: vec![
            legacy_backend("none", None),
            legacy_backend("local", Some("http://127.0.0.1:19001/mcp")),
            legacy_backend("elsewhere", Some("http://127.0.0.1:19001/other")),
        ],
    };
    let monitored = specs(&config);
    assert_eq!(monitored.len(), 1);
    assert_eq!(monitored[0].name, "local");
    assert!(!monitored[0].remote);
    assert_eq!(monitored[0].port, 19001);
    assert_eq!(monitored[0].bearer_token.as_deref(), Some("t"));
}

#[test]
fn restart_needs_two_reachable_probes_before_reconnecting() {
    let mut state = ReconnectState::initial(true);
    let action = state.on_probe(false, None);
    assert!(action.became_unreachable && !action.reconnect);
    let action = state.on_probe(true, Some(true));
    assert!(!action.reconnect, "one probe is not enough");
    let action = state.on_probe(true, Some(true));
    assert!(action.reconnect);
    assert!(state.reconnected_after_restart());
    state.on_reconnect_result(true);
    assert_eq!(state, ReconnectState::initial(true));
}

#[test]
fn two_unhealthy_reports_trigger_a_reconnect() {
    let mut state = ReconnectState::initial(true);
    let action = state.on_probe(true, Some(false));
    assert!(action.first_unhealthy && !action.reconnect);
    let action = state.on_probe(true, Some(false));
    assert!(action.reconnect && !action.first_unhealthy);
    assert!(!state.reconnected_after_restart());
    state.on_reconnect_result(false);
    assert!(state.reconnect_pending, "a failed rebuild is retried on the next cycle");
}

#[test]
fn healthy_report_resets_the_unhealthy_count() {
    let mut state = ReconnectState::initial(true);
    state.on_probe(true, Some(false));
    state.on_probe(true, Some(true));
    let action = state.on_probe(true, Some(false));
    assert!(!action.reconnect);
    assert_eq!(state.unhealthy_probes, 1);
}

#[test]
fn remote_backends_are_probed_at_most_once_per_interval() {
    assert!(should_probe(false, Some(0)));
    assert!(should_probe(true, None));
    assert!(!should_probe(true, Some(29_999)));
    assert!(should_probe(true, Some(30_000)));
}

#[test]
fn admin_paths_are_blocked() {
    assert!(is_admin_path("/admin"));
    assert!(is_admin_path("/admin/health"));
    assert!(!is_admin_path("/administrator"));
    assert!(!is_admin_path("/mcp"));
    assert!(!is_admin_path("/"));
}

#[test]
fn readiness_needs_every_expected_backend_healthy() {
    assert_eq!(readiness_status(Some(&[true, true]), 2), 200);
    assert_eq!(readiness_status(Some(&[true, false]), 2), 503);
    assert_eq!(readiness_status(Some(&[true]), 2), 503);
    assert_eq!(readiness_status(None, 0), 503);
    assert_eq!(readiness_status(Some(&[]), 0), 200);
}

fn oauth() -> NorthboundOAuthConfig {
    NorthboundOAuthConfig {
        resource_url: "https://lomway.example/mcp".to_string(),
        introspection_url: "http://127.0.0.1:1/oauth/introspect".to_string(),
        required_scope: "devspace".to_string(),
    }
}

fn token(aud: Audience, scope: Option<&str>, exp: Option<u64>) -> Introspection {
    Introspection { active: true, aud, scope: scope.map(|s| s.to_string()), exp }
}

#[test]
fn bearer_tokens_are_extracted_exactly() {
    assert_eq!(bearer_token(Some("Bearer valid")), Some("valid"));
    assert_eq!(bearer_token(Some("Bearer ")), None);
    assert_eq!(bearer_token(Some("bearer valid")), None);
    assert_eq!(bearer_token(Some("Basic x")), None);
    assert_eq!(bearer_token(None), None);
}

#[test]
fn tokens_are_checked_for_activity_audience_scope_and_expiry() {
    let config = oauth();
    let now = 1_000;
    let valid = token(Audience::One(config.resource_url.clone()), Some("devspace"), Some(now + 3600));
    assert!(token_is_authorized(&config, &valid, now));

    let inactive = Introspection { active: false, ..valid.clone() };
    assert!(!token_is_authorized(&config, &inactive, now));

    let wrong_aud = token(
        Audience::One("https://other.example/mcp".to_string()),
        Some("devspace"),
        Some(now + 3600),
    );
    assert!(!token_is_authorized(&config, &wrong_aud, now));

    let wrong_scope =
        token(Audience::One(config.resource_url.clone()), Some("other"), Some(now + 3600));
    assert!(!token_is_authorized(&config, &wrong_scope, now));

    let expired = token(Audience::One(config.resource_url.clone()), Some("devspace"), Some(now - 1));
    assert!(!token_is_authorized(&config, &expired, now));
    let at_now = token(Audience::One(config.resource_url.clone()), Some("devspace"), Some(now));
    assert!(!token_is_authorized(&config, &at_now, now));
    let no_exp = token(Audience::One(config.resource_url.clone()), Some("devspace"), None);
    assert!(!token_is_authorized(&config, &no_exp, now));

    let listed = token(
        Audience::Many(vec![None, Some(config.resource_url.clone())]),
        Some("read devspace"),
        Some(now + 1),
    );
    assert!(token_is_authorized(&config, &listed, now));
    assert!(!audience_matches(&Audience::Other, "x"));
}

#[test]
fn scopes_are_whole_whitespace_separated_words() {
    assert!(scope_granted("devspace", "devspace"));
    assert!(scope_granted("a devspace b", "devspace"));
    assert!(scope_granted("\tdevspace\n", "devspace"));
    assert!(!scope_granted("devspaces", "devspace"));
    assert!(!scope_granted("my-devspace", "devspace"));
    assert!(!scope_granted("", "devspace"));
    assert!(!scope_granted("a b", ""));
    assert!(!scope_granted("a b", "a b"));
}

#[test]
fn oauth_metadata_endpoints_and_document() {
    let endpoints = oauth_endpoints("https://lomway.example/mcp").expect("parses");
    assert_eq!(endpoints.authorization_server, "https://lomway.example/");
    assert_eq!(
        endpoints.metadata_url,
        "https://lomway.example/.well-known/oauth-protected-resource/mcp"
    );
    assert_eq!(endpoints.metadata_path, "/.well-known/oauth-protected-resource/mcp");
    assert!(oauth_endpoints("not a url").is_none());
    assert_eq!(
        endpoints_from_parts(Some(UrlParts {
            path: "/x".to_string(),
            host: Some("h".to_string()),
            port: Some(8443),
            origin: "https://h:8443".to_string(),
        }))
            .expect("derived")
            .metadata_url,
        "https://h:8443/.well-known/oauth-protected-resource/x"
    );

    let document = resource_metadata(&oauth(), &endpoints);
    let parsed: serde_json::Value = serde_json::from_str(&document).expect("metadata json");
    assert_eq!(parsed["resource"], "https://lomway.example/mcp");
    assert_eq!(parsed["authorization_servers"][0], "https://lomway.example/");
    assert_eq!(parsed["scopes_supported"][0], "devspace");
    assert_eq!(parsed["bearer_methods_supported"][0], "header");

    assert_eq!(
        challenge(&endpoints.metadata_url, "devspace"),
        "Bearer resource_metadata=\"https://lomway.example/.well-known/oauth-protected-resource/mcp\", scope=\"devspace\""
    );
}
