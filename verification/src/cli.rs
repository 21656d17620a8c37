//! The command-line surface: the commands the binary accepts and the text
//! of the reports it prints.
//!
//! Parsing the arguments and printing are left to the binary; this module
//! fixes what each command carries and what the `check`, `list-backends`,
//! `serve` and `version` reports say.

use vstd::prelude::*;
use vstd::string::*;

use crate::backend::probe::{ProbeReport, UnavailableBackend};
use crate::config::load::ConfigFormat;
use crate::config::migrate::{DEFAULT_SERVER_NAME, GATEWAY_VERSION};
use crate::config::model::{BackendEntry, GatewayConfig};
use crate::namespace::collision::ToolPlan;
use crate::text::{decimal, joined, owned, render_decimal};

verus! {

/// The `lomway` command line: one subcommand.
#[derive(Debug, Clone, PartialEq, Eq)]
pub struct Cli {
    /// The command to run.
    pub command: Command,
}

/// Subcommands. Every `config` is optional: the configuration path
/// precedence supplies it when absent.
#[derive(Debug, Clone, PartialEq, Eq)]
pub enum Command {
    /// Validate startup semantics and serve MCP on the loopback listener.
    Serve { config: Option<String> },
    /// Validate parse, policy and collision preflight without serving;
    /// `probe` adds the one-shot doctor diagnostic.
    Check { config: Option<String>, probe: bool },
    /// Print the configured backends without contacting them.
    ListBackends { config: Option<String> },
    /// Convert a legacy configuration to the public schema as a new file.
    Migrate { config: Option<String>, output: String },
    /// Print version and schema information.
    Version,
}

/// How a report names the on-disk format of the configuration it read.
pub open spec fn format_note_text(format: ConfigFormat) -> Seq<char> {
    match format {
        ConfigFormat::Public => "public schema"@,
        ConfigFormat::Legacy => "legacy schema, migrated in memory"@,
    }
}

/// The format note of `check` and `list-backends`.
pub fn format_note(format: ConfigFormat) -> (r: &'static str)
    ensures
        r@ == format_note_text(format),
{
    match format {
        ConfigFormat::Public => "public schema",
        ConfigFormat::Legacy => "legacy schema, migrated in memory",
    }
}

/// One backend line of the `check` report.
pub open spec fn backend_line(b: BackendEntry) -> Seq<char> {
    "- "@ + b.id@ + " (prefix "@ + b.prefix@ + ", "@ + (if b.required {
        "required"@
    } else {
        "optional"@
    }) + ", "@ + b.url@ + ")\n"@
}

/// The backend lines of the `check` report, in configuration order.
pub open spec fn backend_lines(bs: Seq<BackendEntry>) -> Seq<char>
    decreases bs.len(),
{
    if bs.len() == 0 {
        Seq::empty()
    } else {
        backend_lines(bs.drop_last()) + backend_line(bs.last())
    }
}

/// What the doctor diagnostic found: healthy backends, the ids of the
/// unavailable ones, and the number of planned final tool names.
pub type DoctorSummary = (nat, Seq<Seq<char>>, nat);

/// The doctor section of the `check` report.
pub open spec fn doctor_text(d: DoctorSummary) -> Seq<char> {
    let (healthy, unavailable, total) = d;
    "Doctor probe: "@ + decimal(healthy) + " healthy, "@ + decimal(unavailable.len())
        + " unavailable; "@ + decimal(total) + " final tool names planned, no collisions\n"@
        + (if unavailable.len() > 0 {
        "Degraded (optional): "@ + joined(unavailable, ", "@) + "\n"@
    } else {
        Seq::empty()
    })
}

/// The closing section of a `check` report without the doctor diagnostic.
pub open spec fn preflight_text() -> Seq<char> {
    "Collision preflight (config level): OK (unique ids and prefixes)\n"@
        + "Backends not contacted (non-blocking validation); use --probe for the doctor-style health check\n"@
}

/// The full `check` report for `config`, read from `path` in `format`,
/// with the doctor summary when the diagnostic ran.
pub open spec fn check_report_text(
    path: Seq<char>,
    format: ConfigFormat,
    config: GatewayConfig,
    doctor: Option<DoctorSummary>,
) -> Seq<char> {
    "Config OK: "@ + path + " ("@ + format_note_text(format) + ")\n"@ + "schema_version: "@
        + decimal(config.schema_version as nat) + "\n"@ + "Listen: "@ + config.server.host@ + ":"@
        + decimal(config.server.port as nat) + "\n"@ + "Backends: "@ + decimal(
        config.backends@.len(),
    ) + "\n"@ + backend_lines(config.backends@) + match doctor {
        Some(d) => doctor_text(d),
        None => preflight_text(),
    }
}

/// The doctor summary of a probe report and its tool plan.
pub open spec fn doctor_summary(report: ProbeReport, plan: ToolPlan) -> DoctorSummary {
    (
        report.healthy@.len(),
        report.unavailable@.map_values(|u: UnavailableBackend| u.id@),
        plan.planned_total(),
    )
}

fn render_backend_line(b: &BackendEntry) -> (r: String)
    ensures
        r@ == backend_line(*b),
{
    let mut s = owned("- ");
    s.append(b.id.as_str());
    s.append(" (prefix ");
    s.append(b.prefix.as_str());
    s.append(", ");
    s.append(
        if b.required {
            "required"
        } else {
            "optional"
        },
    );
    s.append(", ");
    s.append(b.url.as_str());
    s.append(")\n");
    s
}

fn render_unavailable_ids(us: &Vec<UnavailableBackend>) -> (r: String)
    ensures
        r@ == joined(us@.map_values(|u: UnavailableBackend| u.id@), ", "@),
{
    let ghost ids = us@.map_values(|u: UnavailableBackend| u.id@);
    let mut r = String::new();
    let n = us.len();
    let mut i: usize = 0;
    while i < n
        invariant
            n == us@.len(),
            ids == us@.map_values(|u: UnavailableBackend| u.id@),
            i <= n,
            r@ == joined(ids.take(i as int), ", "@),
        decreases n - i,
    {
        assert(ids.take(i as int + 1).drop_last() =~= ids.take(i as int));
        if i > 0 {
            r.append(", ");
        } else {
            assert(ids.take(1) =~= seq![ids[0]]);
        }
        r.append(us[i].id.as_str());
        i = i + 1;
    }
    assert(ids.take(n as int) =~= ids);
    r
}

fn render_doctor(report: &ProbeReport, plan: &ToolPlan) -> (r: String)
    ensures
        r@ == doctor_text(doctor_summary(*report, *plan)),
{
    let ghost ids = report.unavailable@.map_values(|u: UnavailableBackend| u.id@);
    let mut s = owned("Doctor probe: ");
    s.append(render_decimal(report.healthy.len() as u64).as_str());
    s.append(" healthy, ");
    s.append(render_decimal(report.unavailable.len() as u64).as_str());
    s.append(" unavailable; ");
    s.append(render_decimal(plan.total_tools() as u64).as_str());
    s.append(" final tool names planned, no collisions\n");
    if report.unavailable.len() > 0 {
        let mut degraded = owned("Degraded (optional): ");
        degraded.append(render_unavailable_ids(&report.unavailable).as_str());
        degraded.append("\n");
        s.append(degraded.as_str());
    } else {
        proof {
            assert(s@ + Seq::<char>::empty() =~= s@);
        }
    }
    s
}

/// Build the `check` report. `doctor` carries the probe report and the
/// tool plan when the doctor diagnostic ran; without it the report says
/// that no backend was contacted.
pub fn check_report(
    path: &str,
    format: ConfigFormat,
    config: &GatewayConfig,
    doctor: Option<(&ProbeReport, &ToolPlan)>,
) -> (r: String)
    ensures
        r@ == check_report_text(
            path@,
            format,
            *config,
            match doctor {
                Some((report, plan)) => Some(doctor_summary(*report, *plan)),
                None => None,
            },
        ),
{
    let mut s = owned("Config OK: ");
    s.append(path);
    s.append(" (");
    s.append(format_note(format));
    s.append(")\n");
    s.append("schema_version: ");
    s.append(render_decimal(config.schema_version as u64).as_str());
    s.append("\n");
    s.append("Listen: ");
    s.append(config.server.host.as_str());
    s.append(":");
    s.append(render_decimal(config.server.port as u64).as_str());
    s.append("\n");
    s.append("Backends: ");
    s.append(render_decimal(config.backends.len() as u64).as_str());
    s.append("\n");
    let ghost head = s@;
    let bs = &config.backends;
    let n = bs.len();
    let mut i: usize = 0;
    while i < n
        invariant
            n == bs@.len(),
            i <= n,
            s@ == head + backend_lines(bs@.take(i as int)),
        decreases n - i,
    {
        let line = render_backend_line(&bs[i]);
        assert(bs@.take(i as int + 1).drop_last() =~= bs@.take(i as int));
        s.append(line.as_str());
        assert(s@ =~= head + backend_lines(bs@.take(i as int + 1)));
        i = i + 1;
    }
    assert(bs@.take(n as int) =~= bs@);
    let tail = match doctor {
        Some((report, plan)) => render_doctor(report, plan),
        None => {
            let mut t = owned(
                "Collision preflight (config level): OK (unique ids and prefixes)\n",
            );
            t.append(
                "Backends not contacted (non-blocking validation); use --probe for the doctor-style health check\n",
            );
            t
        },
    };
    s.append(tail.as_str());
    s
}

/// `s` padded on the right with spaces to at least `width` characters
/// (the `{:<width}` of Rust's formatting).
pub open spec fn left_aligned(s: Seq<char>, width: nat) -> Seq<char> {
    if s.len() < width {
        s + Seq::new((width - s.len()) as nat, |_i: int| ' ')
    } else {
        s
    }
}

/// One row of the `list-backends` table: id, prefix and whether the
/// backend is required, in columns of 20, 20 and 10 characters, then its
/// URL.
pub open spec fn backend_row(b: BackendEntry) -> Seq<char> {
    left_aligned(b.id@, 20) + " "@ + left_aligned(b.prefix@, 20) + " "@ + left_aligned(
        if b.required {
            "true"@
        } else {
            "false"@
        },
        10,
    ) + " "@ + b.url@ + "\n"@
}

/// The rows of the `list-backends` table, in configuration order.
pub open spec fn backend_rows(bs: Seq<BackendEntry>) -> Seq<char>
    decreases bs.len(),
{
    if bs.len() == 0 {
        Seq::empty()
    } else {
        backend_rows(bs.drop_last()) + backend_row(bs.last())
    }
}

/// The `list-backends` table: a header row, then one row per backend.
pub open spec fn backend_table_text(bs: Seq<BackendEntry>) -> Seq<char> {
    left_aligned("ID"@, 20) + " "@ + left_aligned("PREFIX"@, 20) + " "@ + left_aligned(
        "REQUIRED"@,
        10,
    ) + " URL\n"@ + backend_rows(bs)
}

/// Append `field` to `s`, padded on the right to `width` characters.
fn push_left_aligned(s: &mut String, field: &str, width: usize)
    ensures
        final(s)@ == old(s)@ + left_aligned(field@, width as nat),
{
    let ghost start = s@;
    s.append(field);
    let len = field.unicode_len();
    let mut k: usize = len;
    while k < width
        invariant
            len == field@.len(),
            len <= k,
            len < width ==> k <= width,
            len >= width ==> k == len,
            s@ == start + field@ + Seq::new((k - len) as nat, |_i: int| ' '),
        decreases width - k,
    {
        s.append(" ");
        proof {
            reveal_strlit(" ");
        }
        assert(s@ =~= start + field@ + Seq::new((k + 1 - len) as nat, |_i: int| ' '));
        k = k + 1;
    }
    if len < width {
        assert(s@ =~= start + left_aligned(field@, width as nat));
    } else {
        assert(s@ =~= start + field@ + Seq::new((k - len) as nat, |_i: int| ' '));
        assert(k == len);
        assert(s@ =~= start + left_aligned(field@, width as nat));
    }
}

/// Build the `list-backends` table for `config`.
pub fn backend_table(config: &GatewayConfig) -> (r: String)
    ensures
        r@ == backend_table_text(config.backends@),
{
    let mut s = String::new();
    push_left_aligned(&mut s, "ID", 20);
    s.append(" ");
    push_left_aligned(&mut s, "PREFIX", 20);
    s.append(" ");
    push_left_aligned(&mut s, "REQUIRED", 10);
    s.append(" URL\n");
    let ghost head = s@;
    let bs = &config.backends;
    let n = bs.len();
    let mut i: usize = 0;
    while i < n
        invariant
            n == bs@.len(),
            i <= n,
            s@ == head + backend_rows(bs@.take(i as int)),
        decreases n - i,
    {
        let b = &bs[i];
        let ghost before = s@;
        push_left_aligned(&mut s, b.id.as_str(), 20);
        s.append(" ");
        push_left_aligned(&mut s, b.prefix.as_str(), 20);
        s.append(" ");
        let flag = if b.required {
            "true"
        } else {
            "false"
        };
        push_left_aligned(&mut s, flag, 10);
        s.append(" ");
        s.append(b.url.as_str());
        s.append("\n");
        proof {
            reveal_strlit("true");
            reveal_strlit("false");
            assert(flag@ == (if b.required { "true"@ } else { "false"@ }));
            assert(s@ =~= before + backend_row(bs@[i as int]));
            assert(bs@.take(i as int + 1).drop_last() =~= bs@.take(i as int));
        }
        assert(s@ =~= head + backend_rows(bs@.take(i as int + 1)));
        i = i + 1;
    }
    assert(bs@.take(n as int) =~= bs@);
    proof {
        reveal_strlit("ID");
        reveal_strlit("PREFIX");
        reveal_strlit("REQUIRED");
    }
    s
}

/// The `version` line: server name, version, protocol and schema version.
pub open spec fn version_text() -> Seq<char> {
    "lomway"@ + " "@ + "0.1.0"@ + " (mcp protocol 2026-07-28, config schema_version "@ + decimal(1)
        + ")"@
}

/// Build the `version` line.
pub fn version_line() -> (r: String)
    ensures
        r@ == version_text(),
{
    let mut s = owned(DEFAULT_SERVER_NAME);
    s.append(" ");
    s.append(GATEWAY_VERSION);
    s.append(" (mcp protocol 2026-07-28, config schema_version ");
    s.append(render_decimal(1).as_str());
    s.append(")");
    s
}

/// The line `serve` prints once the gateway listens on `host:port`.
pub open spec fn startup_text(host: Seq<char>, port: u16) -> Seq<char> {
    "Serving MCP on http://"@ + host + ":"@ + decimal(port as nat)
        + "/mcp (healthz /healthz, readyz /readyz)"@
}

/// Build the `serve` startup line.
pub fn startup_line(host: &str, port: u16) -> (r: String)
    ensures
        r@ == startup_text(host@, port),
{
    let mut s = owned("Serving MCP on http://");
    s.append(host);
    s.append(":");
    s.append(render_decimal(port as u64).as_str());
    s.append("/mcp (healthz /healthz, readyz /readyz)");
    s
}

} // verus!
