use lomway::backend::descriptor::{probe_timeout, BackendDescriptor};
use lomway::backend::probe::{
    assemble_probe_report, runtime_config, ProbeReport, ProbedBackend, UnavailableBackend,
    UpstreamTool,
};
use lomway::config::model::GatewayConfig;
use lomway::backend::registry::BackendRegistry;
use lomway::config::model::BackendEntry;
use lomway::error::GatewayError;
use lomway::namespace::collision::plan_tools;

fn descriptor(id: &str, prefix: &str, url: &str) -> BackendDescriptor {
    BackendDescriptor::try_from_entry(&BackendEntry {
        id: id.to_string(),
        prefix: prefix.to_string(),
        url: url.to_string(),
        required: true,
        timeout_seconds: 5,
    })
    .expect("valid descriptor")
}

fn tool(name: &str) -> UpstreamTool {
    UpstreamTool {
        name: name.to_string(),
        description: Some("demo".to_string()),
        input_schema: "{\"type\":\"object\"}".to_string(),
    }
}

#[test]
fn plans_deterministic_unique_names() {
    let report = ProbeReport {
        healthy: vec![
            ProbedBackend {
                descriptor: descriptor("a", "a_", "http://127.0.0.1:19001/mcp"),
                tools: vec![tool("status"), tool("extra")],
            },
            ProbedBackend {
                descriptor: descriptor("b", "b_", "http://127.0.0.1:19002/mcp"),
                tools: vec![tool("status")],
            },
        ],
        unavailable: Vec::new(),
    };
    let plan = plan_tools(&report).expect("no collision expected");
    assert_eq!(plan.total_tools(), 3);
    assert_eq!(plan.public_names(), vec!["a_status", "a_extra", "b_status"]);
    assert_eq!(plan.backends()[0].id, "a", "configuration order is kept");
    assert_eq!(plan.backends()[0].tools[1].upstream, "extra");
    assert_eq!(plan.backends()[0].tools[1].description.as_deref(), Some("demo"));
    assert_eq!(plan.backends()[0].tools[1].input_schema, "{\"type\":\"object\"}");
}

#[test]
fn collisions_fail_fast_and_identify_both_sources() {
    let report = ProbeReport {
        healthy: vec![
            ProbedBackend {
                descriptor: descriptor("a", "a_", "http://127.0.0.1:19001/mcp"),
                tools: vec![tool("b_c")],
            },
            ProbedBackend {
                descriptor: descriptor("b", "a_b_", "http://127.0.0.1:19002/mcp"),
                tools: vec![tool("c")],
            },
        ],
        unavailable: Vec::new(),
    };
    let error = plan_tools(&report).expect_err("cross-backend collision");
    let message = error.message();
    assert!(message.contains("'a_b_c' collides"), "{message}");
    assert!(message.contains("backend 'a' (upstream 'b_c')"), "{message}");
    assert!(message.contains("backend 'b' (upstream 'c')"), "{message}");
}

#[test]
fn duplicate_upstream_names_within_one_backend_also_fail() {
    let report = ProbeReport {
        healthy: vec![ProbedBackend {
            descriptor: descriptor("a", "a_", "http://127.0.0.1:19001/mcp"),
            tools: vec![tool("dup"), tool("dup")],
        }],
        unavailable: Vec::new(),
    };
    let error = plan_tools(&report).expect_err("intra-backend collision");
    assert!(error.message().contains("'a_dup' collides"));
}

#[test]
fn the_first_collision_is_the_one_reported() {
    let report = ProbeReport {
        healthy: vec![ProbedBackend {
            descriptor: descriptor("a", "a_", "http://127.0.0.1:19001/mcp"),
            tools: vec![tool("x"), tool("y"), tool("y"), tool("x")],
        }],
        unavailable: Vec::new(),
    };
    assert_eq!(
        plan_tools(&report).err(),
        Some(GatewayError::ToolNameCollision {
            public_name: "a_y".to_string(),
            first_backend: "a".to_string(),
            first_upstream: "y".to_string(),
            second_backend: "a".to_string(),
            second_upstream: "y".to_string(),
        })
    );
}

#[test]
fn an_empty_report_plans_nothing() {
    let plan = plan_tools(&ProbeReport { healthy: vec![], unavailable: vec![] }).expect("empty plan");
    assert_eq!(plan.total_tools(), 0);
    assert!(plan.public_names().is_empty());
}

fn probe_descriptor(id: &str, required: bool) -> BackendDescriptor {
    BackendDescriptor::try_from_entry(&BackendEntry {
        id: id.to_string(),
        prefix: format!("{id}_"),
        url: "http://127.0.0.1:9/mcp".to_string(),
        required,
        timeout_seconds: 2,
    })
    .expect("valid descriptor")
}

#[test]
fn required_backend_down_fails_startup() {
    let registry = BackendRegistry::from_descriptors(vec![
        probe_descriptor("dead_required", true),
        probe_descriptor("offline_optional", false),
    ]);
    let error = assemble_probe_report(
        &registry,
        vec![Err("connection refused".to_string()), Err("connection refused".to_string())],
    )
    .expect_err("required backend is down");
    let message = error.message();
    assert!(message.contains("required backend(s) unavailable"), "{message}");
    assert!(message.contains("dead_required"), "{message}");
    assert_eq!(
        message,
        "required backend(s) unavailable at startup: dead_required; gateway fails closed"
    );
}

#[test]
fn optional_backend_down_degrades_but_is_reported() {
    let registry =
        BackendRegistry::from_descriptors(vec![probe_descriptor("optional_down", false)]);
    let error = assemble_probe_report(&registry, vec![Err("connection refused".to_string())])
        .expect_err("all-unavailable must fail by default");
    assert!(error.message().contains("all backends are unavailable"));

    let registry = BackendRegistry::from_descriptors(vec![
        probe_descriptor("up", false),
        probe_descriptor("optional_down", false),
    ]);
    let report = assemble_probe_report(
        &registry,
        vec![Ok(vec![tool("status")]), Err("connection refused".to_string())],
    )
    .expect("optional outage degrades");
    assert_eq!(report.healthy_count(), 1);
    assert_eq!(report.unavailable_ids(), vec!["optional_down"]);
    assert_eq!(report.unavailable[0].error, "connection refused");
    assert!(!report.unavailable[0].required);
}

#[test]
fn an_empty_registry_fails_closed() {
    let registry = BackendRegistry::from_descriptors(vec![]);
    assert_eq!(assemble_probe_report(&registry, vec![]).err(), Some(GatewayError::NoBackendsConfigured));
}

#[test]
fn every_failed_required_backend_is_named_in_order() {
    let registry = BackendRegistry::from_descriptors(vec![
        probe_descriptor("r1", true),
        probe_descriptor("ok", true),
        probe_descriptor("r2", true),
    ]);
    let error = assemble_probe_report(
        &registry,
        vec![Err("x".to_string()), Ok(vec![]), Err("y".to_string())],
    )
    .expect_err("required failures");
    assert_eq!(
        error,
        GatewayError::RequiredBackendsUnavailable { ids: vec!["r1".to_string(), "r2".to_string()] }
    );
    assert_eq!(
        error.message(),
        "required backend(s) unavailable at startup: r1, r2; gateway fails closed"
    );
}

#[test]
fn probe_timeout_follows_the_backend_timeout() {
    assert_eq!(probe_timeout(&probe_descriptor("a", true)), 2);
}

#[test]
fn the_runtime_configuration_keeps_only_probed_backends() {
    let entry = |id: &str, port: u16| BackendEntry {
        id: id.to_string(),
        prefix: format!("{id}_"),
        url: format!("http://127.0.0.1:{port}/mcp"),
        required: false,
        timeout_seconds: 5,
    };
    let public = GatewayConfig {
        schema_version: 1,
        server: Default::default(),
        policy: Default::default(),
        observability: Default::default(),
        backends: vec![entry("a", 19001), entry("b", 19002), entry("c", 19003)],
    };
    let report = ProbeReport {
        healthy: vec![
            ProbedBackend { descriptor: descriptor("c", "c_", "http://127.0.0.1:19003/mcp"), tools: vec![] },
            ProbedBackend { descriptor: descriptor("a", "a_", "http://127.0.0.1:19001/mcp"), tools: vec![] },
        ],
        unavailable: vec![UnavailableBackend {
            id: "b".to_string(),
            required: false,
            error: "down".to_string(),
        }],
    };
    let runtime = runtime_config(&public, &report);
    let ids: Vec<&str> = runtime.backends.iter().map(|b| b.id.as_str()).collect();
    assert_eq!(ids, vec!["a", "c"], "configuration order is kept");
    assert_eq!(runtime.server.port, public.server.port);
    assert_eq!(runtime.backends[1].url, "http://127.0.0.1:19003/mcp");
}
