use lomway::config::load::{
    check_migration_source, check_migration_target, expand_env_vars_with, ConfigFormat,
};
use lomway::health::state::HealthTracker;
use lomway::config::validate::{validate_backend_id, validate_backend_prefix, validate_backend_url};
use lomway::error::GatewayError;
use lomway::text::{join_with, render_decimal};

#[test]
fn messages_quote_offending_values_like_debug_formatting() {
    assert_eq!(
        validate_backend_id("MyBackend").unwrap_err().message(),
        "backend id \"MyBackend\" must start with a lowercase letter or digit (a-z 0-9 '_' '-' (must start with a letter or digit)); ambiguous ids are rejected, not normalized"
    );
    assert_eq!(
        validate_backend_url("https://example.invalid/mcp").unwrap_err().message(),
        "backend URL must be a loopback http://127.0.0.1:<port>/mcp endpoint, got \"https://example.invalid/mcp\""
    );
    assert_eq!(
        validate_backend_prefix("proxy_").unwrap_err().message(),
        "backend prefix \"proxy_\" is reserved for gateway control planes; reserved prefixes are rejected: [\"proxy_\", \"lomway_\", \"lmg_\"]"
    );
    assert_eq!(
        validate_backend_prefix("a\"b").unwrap_err().message(),
        "backend prefix \"a\\\"b\" must end with the '_' namespace separator; ambiguous prefixes are rejected, not normalized"
    );
    assert_eq!(
        expand_env_vars_with("a${X", |_: &str| None).unwrap_err().message(),
        "unterminated environment variable reference in \"a${X\""
    );
}

#[test]
fn fixed_messages() {
    assert_eq!(
        GatewayError::NoBackendsConfigured.message(),
        "no backends are configured at startup; gateway fails closed by default (this release has no empty-serving mode)"
    );
    assert_eq!(
        GatewayError::AllBackendsUnavailable { ids: vec!["a".to_string(), "b".to_string()] }
            .message(),
        "all backends are unavailable at startup: a, b; gateway fails closed by default"
    );
    assert_eq!(
        GatewayError::ToolNameCollision {
            public_name: "a_b_status".to_string(),
            first_backend: "a".to_string(),
            first_upstream: "b_status".to_string(),
            second_backend: "a_b".to_string(),
            second_upstream: "status".to_string(),
        }
        .message(),
        "final tool name 'a_b_status' collides: backend 'a' (upstream 'b_status') vs backend 'a_b' (upstream 'status'); adjust backend prefixes"
    );
    assert_eq!(
        GatewayError::NoConfigFound.message(),
        "no configuration file found; pass --config <path>, set LOMWAY_CONFIG, or create one of config/proxy.local.toml, gateway.toml"
    );
}

#[test]
fn decimal_rendering_and_joining() {
    assert_eq!(render_decimal(0), "0");
    assert_eq!(render_decimal(7), "7");
    assert_eq!(render_decimal(10), "10");
    assert_eq!(render_decimal(17777), "17777");
    assert_eq!(render_decimal(u64::MAX), u64::MAX.to_string());
    assert_eq!(join_with(&vec![], ", "), "");
    assert_eq!(join_with(&vec!["a".to_string()], ", "), "a");
    assert_eq!(
        join_with(&vec!["a".to_string(), "b".to_string(), "c".to_string()], "|"),
        "a|b|c"
    );
}

#[test]
fn url_errors_carry_the_loopback_rule() {
    assert_eq!(
        GatewayError::BackendUrlNotAllowed {
            id: "r".to_string(),
            url: "https://example.invalid/mcp".to_string()
        }
        .message(),
        "backend 'r' has an invalid URL"
    );
    let not_allowed = GatewayError::BackendUrlNotAllowed {
        id: "r".to_string(),
        url: "https://example.invalid/mcp".to_string(),
    };
    assert_eq!(
        not_allowed.cause().as_deref(),
        Some("backend URL must be a loopback http://127.0.0.1:<port>/mcp endpoint, got \"https://example.invalid/mcp\"")
    );
    assert_eq!(
        not_allowed.full_message(),
        "backend 'r' has an invalid URL: backend URL must be a loopback http://127.0.0.1:<port>/mcp endpoint, got \"https://example.invalid/mcp\""
    );
    let migrate = GatewayError::MigrateUrl {
        name: "beta".to_string(),
        url: "https://example.invalid/mcp".to_string(),
    };
    assert_eq!(migrate.message(), "backend 'beta' cannot migrate");
    assert_eq!(
        migrate.full_message(),
        "backend 'beta' cannot migrate: backend URL must be a loopback http://127.0.0.1:<port>/mcp endpoint, got \"https://example.invalid/mcp\""
    );
}

#[test]
fn errors_without_a_cause_print_their_message_alone() {
    let error = GatewayError::InvalidBackendUrl { url: "ftp://x".to_string() };
    assert_eq!(error.cause(), None);
    assert_eq!(error.full_message(), error.message());
    assert_eq!(
        error.message(),
        "backend URL must be a loopback http://127.0.0.1:<port>/mcp endpoint, got \"ftp://x\""
    );
}

#[test]
fn migration_refusals() {
    let error = check_migration_target(true, true, "legacy.toml").unwrap_err();
    assert_eq!(error, GatewayError::MigrateInPlace { output: "legacy.toml".to_string() });
    assert!(error.message().contains("in place"));
    let error = check_migration_target(false, true, "public.toml").unwrap_err();
    assert!(error.message().contains("refusing to overwrite"));
    assert_eq!(
        error.message(),
        "refusing to overwrite an existing file: public.toml (delete it explicitly to re-run the migration)"
    );
    assert!(check_migration_target(false, false, "out.toml").is_ok());
    let error = check_migration_source("public-input.toml", ConfigFormat::Public).unwrap_err();
    assert!(error.message().contains("already in the public schema"));
    assert!(check_migration_source("legacy.toml", ConfigFormat::Legacy).is_ok());
}

#[test]
fn json_strings_are_escaped_like_serde_json() {
    let mut tracker = HealthTracker::new();
    tracker.register("a", false);
    tracker.observe("a", false, Some("tab\there\u{1}\\".to_string()));
    let body = tracker.snapshot().json_body();
    assert!(body.contains("\"error\":\"tab\\there\\u0001\\\\\""), "{body}");
    let parsed: serde_json::Value = serde_json::from_str(&body).expect("valid JSON");
    assert_eq!(parsed["per_backend"]["a"]["error"], "tab\there\u{1}\\");
}
