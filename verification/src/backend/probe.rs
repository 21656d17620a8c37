//! Startup probe semantics.
//!
//! Before serving, every configured backend is probed once with an MCP
//! `initialize` + `tools/list` round trip (done by the caller; probes never
//! retry). This module turns the per-backend outcomes into the startup
//! decision: zero configured backends fail closed, every `required`
//! backend must be healthy, optional backends may be down and are reported
//! as degraded, and if every backend is unavailable startup fails.

use vstd::prelude::*;

use crate::backend::descriptor::{BackendDescriptor, DescriptorView};
use crate::backend::registry::BackendRegistry;
use crate::config::model::{
    BackendEntry, GatewayConfig, ObservabilityConfig, PolicyConfig, ServerConfig,
};
use crate::error::GatewayError;
use crate::text::str_eq;

verus! {

/// One tool as reported by the upstream backend during the probe.
#[derive(Debug)]
pub struct UpstreamTool {
    /// Upstream tool name.
    pub name: String,
    /// Upstream description, preserved verbatim.
    pub description: Option<String>,
    /// Upstream input schema as JSON text, preserved verbatim.
    pub input_schema: String,
}

/// A backend that answered the startup probe.
#[derive(Debug)]
pub struct ProbedBackend {
    /// The validated descriptor that was probed.
    pub descriptor: BackendDescriptor,
    /// Tools listed by the backend.
    pub tools: Vec<UpstreamTool>,
}

/// A backend that failed its startup probe.
#[derive(Debug)]
pub struct UnavailableBackend {
    /// Backend id.
    pub id: String,
    /// Whether the entry was marked required.
    pub required: bool,
    /// The probe failure reason (never includes request payloads).
    pub error: String,
}

/// The complete startup probe outcome.
#[derive(Debug)]
pub struct ProbeReport {
    /// Healthy backends in configuration order.
    pub healthy: Vec<ProbedBackend>,
    /// Unavailable backends in configuration order.
    pub unavailable: Vec<UnavailableBackend>,
}

impl ProbeReport {
    /// Number of healthy backends.
    pub fn healthy_count(&self) -> (r: usize)
        ensures
            r == self.healthy@.len(),
    {
        self.healthy.len()
    }

    /// Ids of unavailable backends, in report order.
    pub fn unavailable_ids(&self) -> (r: Vec<&str>)
        ensures
            r@.len() == self.unavailable@.len(),
            forall|i: int| 0 <= i < r@.len() ==> #[trigger] r@[i]@ == self.unavailable@[i].id@,
    {
        let n = self.unavailable.len();
        let mut ids: Vec<&str> = Vec::new();
        let mut i: usize = 0;
        while i < n
            invariant
                n == self.unavailable@.len(),
                i <= n,
                ids@.len() == i,
                forall|k: int| 0 <= k < i ==> #[trigger] ids@[k]@ == self.unavailable@[k].id@,
            decreases n - i,
        {
            ids.push(self.unavailable[i].id.as_str());
            i = i + 1;
        }
        ids
    }
}

/// Positions (in order) whose probe succeeded.
pub open spec fn ok_positions(oks: Seq<bool>) -> Seq<int>
    decreases oks.len(),
{
    if oks.len() == 0 {
        Seq::empty()
    } else if oks.last() {
        ok_positions(oks.drop_last()).push(oks.len() - 1)
    } else {
        ok_positions(oks.drop_last())
    }
}

/// Positions (in order) whose probe failed.
pub open spec fn err_positions(oks: Seq<bool>) -> Seq<int>
    decreases oks.len(),
{
    if oks.len() == 0 {
        Seq::empty()
    } else if !oks.last() {
        err_positions(oks.drop_last()).push(oks.len() - 1)
    } else {
        err_positions(oks.drop_last())
    }
}

/// Positions (in order) of required backends whose probe failed.
pub open spec fn failed_required_positions(reg: Seq<DescriptorView>, oks: Seq<bool>) -> Seq<int>
    decreases oks.len(),
{
    if oks.len() == 0 {
        Seq::empty()
    } else if !oks.last() && reg[oks.len() - 1].required {
        failed_required_positions(reg, oks.drop_last()).push(oks.len() - 1)
    } else {
        failed_required_positions(reg, oks.drop_last())
    }
}

/// Which probes succeeded.
pub open spec fn outcome_oks(outcomes: Seq<Result<Vec<UpstreamTool>, String>>) -> Seq<bool> {
    outcomes.map_values(|o: Result<Vec<UpstreamTool>, String>| o is Ok)
}

/// The ids of the backends at the given positions.
pub open spec fn ids_at(reg: Seq<DescriptorView>, ps: Seq<int>) -> Seq<Seq<char>> {
    ps.map_values(|p: int| reg[p].id)
}

/// `ids` holds exactly the given id sequence.
pub open spec fn ids_are(ids: Vec<String>, expected: Seq<Seq<char>>) -> bool {
    ids@.len() == expected.len() && forall|i: int| 0 <= i < ids@.len() ==> #[trigger] ids@[i]@
        == expected[i]
}

/// The report lists every probed backend exactly once, split by outcome,
/// each part in configuration order.
pub open spec fn report_matches(
    report: ProbeReport,
    reg: Seq<DescriptorView>,
    outcomes: Seq<Result<Vec<UpstreamTool>, String>>,
) -> bool {
    let oks = outcome_oks(outcomes);
    let okp = ok_positions(oks);
    let errp = err_positions(oks);
    &&& report.healthy@.len() == okp.len()
    &&& forall|k: int|
        0 <= k < okp.len() ==> {
            &&& (#[trigger] report.healthy@[k]).descriptor@ == reg[okp[k]]
            &&& outcomes[okp[k]] == Ok::<Vec<UpstreamTool>, String>(report.healthy@[k].tools)
        }
    &&& report.unavailable@.len() == errp.len()
    &&& forall|k: int|
        0 <= k < errp.len() ==> {
            &&& (#[trigger] report.unavailable@[k]).id@ == reg[errp[k]].id
            &&& report.unavailable@[k].required == reg[errp[k]].required
            &&& outcomes[errp[k]] == Err::<Vec<UpstreamTool>, String>(report.unavailable@[k].error)
        }
}

proof fn lemma_positions_step(oks: Seq<bool>, reg: Seq<DescriptorView>, i: int)
    requires
        0 <= i < oks.len(),
    ensures
        oks.take(i + 1).drop_last() == oks.take(i),
        oks.take(i + 1).last() == oks[i],
        oks.take(i + 1).len() == i + 1,
{
    assert(oks.take(i + 1).drop_last() =~= oks.take(i));
}

proof fn lemma_positions_bounded(oks: Seq<bool>)
    ensures
        forall|k: int| 0 <= k < ok_positions(oks).len() ==> 0 <= #[trigger] ok_positions(oks)[k] < oks.len() && oks[ok_positions(oks)[k]],
        forall|k: int| 0 <= k < err_positions(oks).len() ==> 0 <= #[trigger] err_positions(oks)[k] < oks.len() && !oks[err_positions(oks)[k]],
        ok_positions(oks).len() + err_positions(oks).len() == oks.len(),
    decreases oks.len(),
{
    if oks.len() > 0 {
        lemma_positions_bounded(oks.drop_last());
    }
}

/// Turn the per-backend probe outcomes (one per registry entry, in
/// registry order) into the startup decision.
///
/// * an empty registry fails closed;
/// * a required backend that failed fails startup, naming every failed
///   required backend in order;
/// * otherwise, if nothing is healthy, startup fails naming every backend;
/// * otherwise the report lists healthy and degraded backends in order.
pub fn assemble_probe_report(
    registry: &BackendRegistry,
    outcomes: Vec<Result<Vec<UpstreamTool>, String>>,
) -> (r: Result<ProbeReport, GatewayError>)
    requires
        outcomes@.len() == registry@.len(),
    ensures
        ({
            let reg = registry@;
            let oks = outcome_oks(outcomes@);
            if reg.len() == 0 {
                r == Err::<ProbeReport, GatewayError>(GatewayError::NoBackendsConfigured)
            } else if failed_required_positions(reg, oks).len() > 0 {
                r matches Err(GatewayError::RequiredBackendsUnavailable { ids }) && ids_are(
                    ids,
                    ids_at(reg, failed_required_positions(reg, oks)),
                )
            } else if ok_positions(oks).len() == 0 {
                r matches Err(GatewayError::AllBackendsUnavailable { ids }) && ids_are(
                    ids,
                    ids_at(reg, err_positions(oks)),
                )
            } else {
                r matches Ok(report) && report_matches(report, reg, outcomes@)
            }
        }),
{
    if registry.is_empty() {
        return Err(GatewayError::NoBackendsConfigured);
    }
    let ghost reg = registry@;
    let ghost outs = outcomes@;
    let ghost oks = outcome_oks(outs);
    let descriptors = registry.descriptors();
    let n = outcomes.len();
    let mut healthy: Vec<ProbedBackend> = Vec::new();
    let mut unavailable: Vec<UnavailableBackend> = Vec::new();
    let mut missing_required: Vec<String> = Vec::new();
    let mut all_ids: Vec<String> = Vec::new();
    let mut rest = outcomes;
    let mut i: usize = 0;
    while i < n
        invariant
            n == outs.len(),
            n == reg.len(),
            descriptors@.map_values(|d: BackendDescriptor| d@) == reg,
            oks == outcome_oks(outs),
            i <= n,
            rest@.len() == n - i,
            rest@ == outs.skip(i as int),
            ({
                let t = oks.take(i as int);
                &&& healthy@.len() == ok_positions(t).len()
                &&& forall|k: int|
                    0 <= k < ok_positions(t).len() ==> {
                        &&& (#[trigger] healthy@[k]).descriptor@ == reg[ok_positions(t)[k]]
                        &&& outs[ok_positions(t)[k]] == Ok::<Vec<UpstreamTool>, String>(
                            healthy@[k].tools,
                        )
                    }
                &&& unavailable@.len() == err_positions(t).len()
                &&& forall|k: int|
                    0 <= k < err_positions(t).len() ==> {
                        &&& (#[trigger] unavailable@[k]).id@ == reg[err_positions(t)[k]].id
                        &&& unavailable@[k].required == reg[err_positions(t)[k]].required
                        &&& outs[err_positions(t)[k]] == Err::<Vec<UpstreamTool>, String>(
                            unavailable@[k].error,
                        )
                    }
                &&& ids_are(missing_required, ids_at(reg, failed_required_positions(reg, t)))
                &&& ids_are(all_ids, ids_at(reg, err_positions(t)))
            }),
        decreases n - i,
    {
        let outcome = rest.remove(0);
        assert(outcome == outs[i as int]);
        proof {
            lemma_positions_step(oks, reg, i as int);
        }
        let d = &descriptors[i];
        assert(d@ == reg[i as int]);
        match outcome {
            Ok(tools) => {
                healthy.push(ProbedBackend { descriptor: d.clone(), tools });
            },
            Err(error) => {
                let id = String::from_str(d.id());
                let id2 = String::from_str(d.id());
                if d.required() {
                    missing_required.push(String::from_str(d.id()));
                }
                all_ids.push(id2);
                unavailable.push(UnavailableBackend { id, required: d.required(), error });
            },
        }
        i = i + 1;
    }
    assert(oks.take(n as int) =~= oks);
    if missing_required.len() > 0 {
        return Err(GatewayError::RequiredBackendsUnavailable { ids: missing_required });
    }
    if healthy.len() == 0 {
        return Err(GatewayError::AllBackendsUnavailable { ids: all_ids });
    }
    Ok(ProbeReport { healthy, unavailable })
}


/// Ids of the healthy backends of a report, in order.
pub open spec fn healthy_ids(report: ProbeReport) -> Seq<Seq<char>> {
    report.healthy@.map_values(|b: ProbedBackend| b.descriptor@.id)
}

/// The entries of `bs` whose id is among `ids`, in order.
pub open spec fn kept_backends(bs: Seq<BackendEntry>, ids: Seq<Seq<char>>) -> Seq<BackendEntry>
    decreases bs.len(),
{
    if bs.len() == 0 {
        Seq::empty()
    } else if ids.contains(bs.last().id@) {
        kept_backends(bs.drop_last(), ids).push(bs.last())
    } else {
        kept_backends(bs.drop_last(), ids)
    }
}

fn copy_entry(e: &BackendEntry) -> (r: BackendEntry)
    ensures
        r == *e,
{
    BackendEntry {
        id: e.id.clone(),
        prefix: e.prefix.clone(),
        url: e.url.clone(),
        required: e.required,
        timeout_seconds: e.timeout_seconds,
    }
}

fn is_healthy_id(report: &ProbeReport, id: &str) -> (r: bool)
    ensures
        r == healthy_ids(*report).contains(id@),
{
    let n = report.healthy.len();
    let ghost ids = healthy_ids(*report);
    let mut i: usize = 0;
    while i < n
        invariant
            n == report.healthy@.len(),
            ids == healthy_ids(*report),
            i <= n,
            forall|k: int| 0 <= k < i ==> ids[k] != id@,
        decreases n - i,
    {
        if str_eq(report.healthy[i].descriptor.id(), id) {
            assert(ids[i as int] == id@);
            return true;
        }
        i = i + 1;
    }
    false
}

/// The configuration the upstream proxy is built from: `public` restricted
/// to the backends that answered the startup probe, in configuration
/// order, with every other setting unchanged. Backends that failed are
/// left out, so an offline backend is not contacted a second time during
/// startup.
pub fn runtime_config(public: &GatewayConfig, report: &ProbeReport) -> (r: GatewayConfig)
    ensures
        r.schema_version == public.schema_version,
        r.server == public.server,
        r.policy == public.policy,
        r.observability == public.observability,
        r.backends@ == kept_backends(public.backends@, healthy_ids(*report)),
{
    let ghost bs = public.backends@;
    let ghost ids = healthy_ids(*report);
    let n = public.backends.len();
    let mut kept: Vec<BackendEntry> = Vec::new();
    let mut i: usize = 0;
    while i < n
        invariant
            n == bs.len(),
            bs == public.backends@,
            ids == healthy_ids(*report),
            i <= n,
            kept@ == kept_backends(bs.take(i as int), ids),
        decreases n - i,
    {
        assert(bs.take(i as int + 1).drop_last() =~= bs.take(i as int));
        assert(bs.take(i as int + 1).last() == bs[i as int]);
        let entry = &public.backends[i];
        if is_healthy_id(report, entry.id.as_str()) {
            kept.push(copy_entry(entry));
        }
        i = i + 1;
    }
    assert(bs.take(n as int) =~= bs);
    GatewayConfig {
        schema_version: public.schema_version,
        server: ServerConfig {
            host: public.server.host.clone(),
            port: public.server.port,
            instructions: match &public.server.instructions {
                Some(s) => Some(s.clone()),
                None => None,
            },
            shutdown_timeout_seconds: public.server.shutdown_timeout_seconds,
        },
        policy: PolicyConfig {
            allow_non_loopback_listener: public.policy.allow_non_loopback_listener,
            allow_non_loopback_backends: public.policy.allow_non_loopback_backends,
            hot_reload: public.policy.hot_reload,
            max_argument_size_bytes: public.policy.max_argument_size_bytes,
        },
        observability: ObservabilityConfig {
            audit: public.observability.audit,
            log_level: public.observability.log_level.clone(),
            json_logs: public.observability.json_logs,
        },
        backends: kept,
    }
}

} // verus!
