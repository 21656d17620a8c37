use lomway::backend::descriptor::BackendDescriptor;
use lomway::backend::probe::{ProbeReport, ProbedBackend, UnavailableBackend, UpstreamTool};
use lomway::cli::{backend_table, check_report, format_note, startup_line, version_line, Cli, Command};
use lomway::config::load::ConfigFormat;
use lomway::config::model::{BackendEntry, GatewayConfig};
use lomway::namespace::collision::plan_tools;

fn public_config() -> GatewayConfig {
    GatewayConfig {
        schema_version: 1,
        server: Default::default(),
        policy: Default::default(),
        observability: Default::default(),
        backends: vec![
            BackendEntry {
                id: "fs".to_string(),
                prefix: "fs_".to_string(),
                url: "http://127.0.0.1:18701/mcp".to_string(),
                ..Default::default()
            },
            BackendEntry {
                id: "calc".to_string(),
                prefix: "calc_".to_string(),
                url: "http://127.0.0.1:18702/mcp".to_string(),
                required: false,
                ..Default::default()
            },
        ],
    }
}

#[test]
fn list_backends_reports_the_on_disk_format() {
    assert_eq!(format_note(ConfigFormat::Public), "public schema");
    assert_eq!(format_note(ConfigFormat::Legacy), "legacy schema, migrated in memory");
}

#[test]
fn check_without_probe_is_nonblocking_and_reports_format() {
    let config = public_config();
    let report = check_report("public.toml", ConfigFormat::Public, &config, None);
    assert!(report.contains("public schema"), "{report}");
    assert!(report.contains("Backends: 2"), "{report}");
    assert!(report.contains("not contacted"), "{report}");
    assert!(
        !report.contains("Doctor probe"),
        "the doctor diagnostic must stay behind --probe: {report}"
    );
}

#[test]
fn check_reports_in_memory_legacy_migration() {
    let config = public_config();
    let report = check_report("legacy.toml", ConfigFormat::Legacy, &config, None);
    assert!(report.contains("legacy schema, migrated in memory"), "{report}");
}

#[test]
fn check_report_text_is_exact() {
    let report = check_report("public.toml", ConfigFormat::Public, &public_config(), None);
    assert_eq!(
        report,
        "Config OK: public.toml (public schema)\n\
         schema_version: 1\n\
         Listen: 127.0.0.1:17777\n\
         Backends: 2\n\
         - fs (prefix fs_, required, http://127.0.0.1:18701/mcp)\n\
         - calc (prefix calc_, optional, http://127.0.0.1:18702/mcp)\n\
         Collision preflight (config level): OK (unique ids and prefixes)\n\
         Backends not contacted (non-blocking validation); use --probe for the doctor-style health check\n"
    );
}

fn descriptor(id: &str) -> BackendDescriptor {
    BackendDescriptor::try_from_entry(&BackendEntry {
        id: id.to_string(),
        prefix: format!("{id}_"),
        url: "http://127.0.0.1:18701/mcp".to_string(),
        ..Default::default()
    })
    .expect("valid descriptor")
}

#[test]
fn doctor_section_reports_probe_results() {
    let report = ProbeReport {
        healthy: vec![ProbedBackend {
            descriptor: descriptor("fs"),
            tools: vec![
                UpstreamTool { name: "read".to_string(), description: None, input_schema: "{}".to_string() },
                UpstreamTool { name: "write".to_string(), description: None, input_schema: "{}".to_string() },
            ],
        }],
        unavailable: vec![
            UnavailableBackend { id: "calc".to_string(), required: false, error: "down".to_string() },
            UnavailableBackend { id: "web".to_string(), required: false, error: "down".to_string() },
        ],
    };
    let plan = plan_tools(&report).expect("plan");
    let text = check_report("p.toml", ConfigFormat::Public, &public_config(), Some((&report, &plan)));
    assert!(text.ends_with(
        "Doctor probe: 1 healthy, 2 unavailable; 2 final tool names planned, no collisions\n\
         Degraded (optional): calc, web\n"
    ), "{text}");
    assert!(!text.contains("not contacted"));

    let all_up = ProbeReport { healthy: vec![], unavailable: vec![] };
    let plan = plan_tools(&all_up).expect("plan");
    let text = check_report("p.toml", ConfigFormat::Public, &public_config(), Some((&all_up, &plan)));
    assert!(text.ends_with("Doctor probe: 0 healthy, 0 unavailable; 0 final tool names planned, no collisions\n"));
    assert!(!text.contains("Degraded"));
}

#[test]
fn version_and_startup_lines() {
    assert_eq!(
        version_line(),
        "lomway 0.1.0 (mcp protocol 2026-07-28, config schema_version 1)"
    );
    assert_eq!(
        startup_line("127.0.0.1", 17777),
        "Serving MCP on http://127.0.0.1:17777/mcp (healthz /healthz, readyz /readyz)"
    );
}

#[test]
fn commands_carry_their_arguments() {
    let cli = Cli {
        command: Command::Check { config: Some("a.toml".to_string()), probe: true },
    };
    assert_eq!(
        cli.command,
        Command::Check { config: Some("a.toml".to_string()), probe: true }
    );
    assert_ne!(Command::Version, Command::Serve { config: None });
}

#[test]
fn backend_table_aligns_columns_like_the_format_widths() {
    let config = public_config();
    let mut expected = format!("{:<20} {:<20} {:<10} URL\n", "ID", "PREFIX", "REQUIRED");
    for backend in &config.backends {
        expected.push_str(&format!(
            "{:<20} {:<20} {:<10} {}\n",
            backend.id, backend.prefix, backend.required, backend.url
        ));
    }
    assert_eq!(backend_table(&config), expected);
    assert_eq!(
        backend_table(&config).lines().nth(1),
        Some("fs                   fs_                  true       http://127.0.0.1:18701/mcp")
    );

    let mut long = public_config();
    long.backends.truncate(1);
    long.backends[0].id = "a_backend_id_longer_than_twenty".to_string();
    assert_eq!(
        backend_table(&long).lines().nth(1),
        Some("a_backend_id_longer_than_twenty fs_                  true       http://127.0.0.1:18701/mcp")
    );

    let mut empty = public_config();
    empty.backends.clear();
    assert_eq!(backend_table(&empty), format!("{:<20} {:<20} {:<10} URL\n", "ID", "PREFIX", "REQUIRED"));
}
