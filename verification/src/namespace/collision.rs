//! Startup tool collision preflight.
//!
//! Final tool names are computed for every healthy backend before the
//! gateway serves a single request. Any collision fails startup while
//! naming both sources, so ambiguity can never surface at call time.

use vstd::prelude::*;

use crate::backend::probe::{ProbeReport, ProbedBackend, UpstreamTool};
use crate::error::GatewayError;
use crate::namespace::normalize::{public_name_spec, public_tool_name};
use crate::text::str_eq;

verus! {

/// A single upstream tool with its planned client-visible identity.
#[derive(Debug)]
pub struct PlannedTool {
    /// Tool name as exposed by the backend.
    pub upstream: String,
    /// Final client-visible name: `<prefix><upstream>`.
    pub public_name: String,
    /// Upstream description, preserved verbatim.
    pub description: Option<String>,
    /// Upstream input schema (JSON text), preserved verbatim.
    pub input_schema: String,
}

/// Planned tool surface for one backend.
#[derive(Debug)]
pub struct PlannedBackend {
    /// Backend id.
    pub id: String,
    /// Backend namespace prefix.
    pub prefix: String,
    /// Planned tools in upstream listing order.
    pub tools: Vec<PlannedTool>,
}

/// The complete precomputed tool surface of the gateway.
#[derive(Debug)]
pub struct ToolPlan {
    backends: Vec<PlannedBackend>,
    total_tools: usize,
}

/// One planned final name with its source: (final name, backend id,
/// upstream tool name).
pub type NameSource = (Seq<char>, Seq<char>, Seq<char>);

/// The final names of one healthy backend, in upstream listing order.
pub open spec fn backend_sources(b: ProbedBackend) -> Seq<NameSource> {
    b.tools@.map_values(
        |t: UpstreamTool|
            (public_name_spec(b.descriptor@.prefix, t.name@), b.descriptor@.id, t.name@),
    )
}

/// The final names of the first `n` healthy backends, in order.
pub open spec fn sources_upto(hs: Seq<ProbedBackend>, n: int) -> Seq<NameSource>
    decreases n,
{
    if n <= 0 {
        Seq::empty()
    } else {
        sources_upto(hs, n - 1) + backend_sources(hs[n - 1])
    }
}

/// All planned final names of a report, in deterministic order.
pub open spec fn plan_sources(report: ProbeReport) -> Seq<NameSource> {
    sources_upto(report.healthy@, report.healthy@.len() as int)
}

/// No two entries share a final name.
pub open spec fn names_distinct(s: Seq<NameSource>) -> bool {
    forall|i: int, j: int| 0 <= i < j < s.len() ==> (#[trigger] s[i]).0 != (#[trigger] s[j]).0
}

/// `e` names the first collision of `s`: position `j` is the first whose
/// name already occurred, at position `i`.
pub open spec fn is_first_collision(s: Seq<NameSource>, e: GatewayError) -> bool {
    exists|i: int, j: int|
        #![trigger s[i], s[j]]
        0 <= i < j < s.len() && s[i].0 == s[j].0 && names_distinct(s.take(j)) && (e matches GatewayError::ToolNameCollision {
            public_name,
            first_backend,
            first_upstream,
            second_backend,
            second_upstream,
        } && public_name@ == s[j].0 && first_backend@ == s[i].1 && first_upstream@ == s[i].2
            && second_backend@ == s[j].1 && second_upstream@ == s[j].2)
}

/// The plan lays out every healthy backend's tools under its prefix.
pub open spec fn plan_matches(plan: ToolPlan, report: ProbeReport) -> bool {
    let hs = report.healthy@;
    &&& plan.planned_backends().len() == hs.len()
    &&& plan.planned_total() == plan_sources(report).len()
    &&& forall|b: int|
        0 <= b < hs.len() ==> {
            let pb = #[trigger] plan.planned_backends()[b];
            &&& pb.id@ == hs[b].descriptor@.id
            &&& pb.prefix@ == hs[b].descriptor@.prefix
            &&& pb.tools@.len() == hs[b].tools@.len()
            &&& forall|t: int|
                0 <= t < pb.tools@.len() ==> {
                    let pt = #[trigger] pb.tools@[t];
                    let ut = hs[b].tools@[t];
                    &&& pt.upstream@ == ut.name@
                    &&& pt.public_name@ == public_name_spec(hs[b].descriptor@.prefix, ut.name@)
                    &&& pt.description == ut.description
                    &&& pt.input_schema@ == ut.input_schema@
                }
        }
}

impl ToolPlan {
    /// The planned backends.
    pub closed spec fn planned_backends(&self) -> Seq<PlannedBackend> {
        self.backends@
    }

    /// The number of planned final names.
    pub closed spec fn planned_total(&self) -> nat {
        self.total_tools as nat
    }

    /// Planned backends in configuration (deterministic) order.
    pub fn backends(&self) -> (r: &[PlannedBackend])
        ensures
            r@ == self.planned_backends(),
    {
        self.backends.as_slice()
    }

    /// Total number of planned final tool names.
    pub fn total_tools(&self) -> (r: usize)
        ensures
            r == self.planned_total(),
    {
        self.total_tools
    }

    /// All final tool names in deterministic order.
    pub fn public_names(&self) -> (r: Vec<&str>)
        ensures
            r@.map_values(|s: &str| s@) == self.names_spec(),
    {
        let mut names: Vec<&str> = Vec::new();
        let nb = self.backends.len();
        let mut b: usize = 0;
        while b < nb
            invariant
                nb == self.backends@.len(),
                b <= nb,
                names@.map_values(|s: &str| s@) == names_upto(self.backends@, b as int),
            decreases nb - b,
        {
            let tools = &self.backends[b].tools;
            let nt = tools.len();
            let ghost before = names@.map_values(|s: &str| s@);
            let mut t: usize = 0;
            while t < nt
                invariant
                    nb == self.backends@.len(),
                    b < nb,
                    tools == self.backends@[b as int].tools,
                    nt == tools@.len(),
                    t <= nt,
                    before == names_upto(self.backends@, b as int),
                    names@.map_values(|s: &str| s@) == before + tools@.take(t as int).map_values(
                        |pt: PlannedTool| pt.public_name@,
                    ),
                decreases nt - t,
            {
                let ghost old_names = names@;
                let name = tools[t].public_name.as_str();
                names.push(name);
                proof {
                    let f = |s: &str| s@;
                    let g = |pt: PlannedTool| pt.public_name@;
                    assert(names@ =~= old_names.push(name));
                    assert(names@.map_values(f) =~= old_names.map_values(f).push(
                        tools@[t as int].public_name@,
                    ));
                    assert(tools@.take(t + 1) =~= tools@.take(t as int).push(tools@[t as int]));
                    assert(tools@.take(t + 1).map_values(g) =~= tools@.take(t as int).map_values(
                        g,
                    ).push(tools@[t as int].public_name@));
                    assert(names@.map_values(f) =~= before + tools@.take(t + 1).map_values(g));
                }
                t = t + 1;
            }
            assert(tools@.take(nt as int) =~= tools@);
            b = b + 1;
        }
        names
    }
}

/// The final names of the first `n` planned backends, in order.
pub open spec fn names_upto(bs: Seq<PlannedBackend>, n: int) -> Seq<Seq<char>>
    decreases n,
{
    if n <= 0 {
        Seq::empty()
    } else {
        names_upto(bs, n - 1) + bs[n - 1].tools@.map_values(|pt: PlannedTool| pt.public_name@)
    }
}

impl ToolPlan {
    /// Every planned final name in order.
    pub open spec fn names_spec(&self) -> Seq<Seq<char>> {
        names_upto(self.planned_backends(), self.planned_backends().len() as int)
    }
}

fn clone_opt_string(o: &Option<String>) -> (r: Option<String>)
    ensures
        r == *o,
{
    match o {
        Some(s) => Some(s.clone()),
        None => None,
    }
}

proof fn lemma_sources_step(hs: Seq<ProbedBackend>, b: int)
    requires
        0 <= b < hs.len(),
    ensures
        sources_upto(hs, b + 1) == sources_upto(hs, b) + backend_sources(hs[b]),
        sources_upto(hs, b).len() >= 0,
{
}

/// Compute the final tool plan from a startup probe report.
///
/// Fails fast when two upstream tools would map to the same final name
/// (across backends or within one backend); the error identifies both
/// sources, the earlier one first.
pub fn plan_tools(report: &ProbeReport) -> (r: Result<ToolPlan, GatewayError>)
    ensures
        r is Ok <==> names_distinct(plan_sources(*report)),
        r matches Ok(plan) ==> plan_matches(plan, *report),
        r matches Err(e) ==> is_first_collision(plan_sources(*report), e),
{
    let ghost hs = report.healthy@;
    let nb = report.healthy.len();
    let mut backends: Vec<PlannedBackend> = Vec::new();
    // Every final name planned so far, with its source backend id and
    // upstream name, in order.
    let mut seen_names: Vec<String> = Vec::new();
    let mut seen_ids: Vec<&str> = Vec::new();
    let mut seen_upstreams: Vec<&str> = Vec::new();
    let mut total: usize = 0;
    let mut b: usize = 0;
    while b < nb
        invariant
            nb == hs.len(),
            hs == report.healthy@,
            b <= nb,
            backends@.len() == b,
            ({
                let s = sources_upto(hs, b as int);
                &&& seen_names@.len() == s.len()
                &&& seen_ids@.len() == s.len()
                &&& seen_upstreams@.len() == s.len()
                &&& total == s.len()
                &&& forall|k: int|
                    0 <= k < s.len() ==> #[trigger] seen_names@[k]@ == s[k].0 && seen_ids@[k]@
                        == s[k].1 && seen_upstreams@[k]@ == s[k].2
                &&& names_distinct(s)
            }),
            forall|c: int|
                0 <= c < b ==> {
                    let pb = #[trigger] backends@[c];
                    &&& pb.id@ == hs[c].descriptor@.id
                    &&& pb.prefix@ == hs[c].descriptor@.prefix
                    &&& pb.tools@.len() == hs[c].tools@.len()
                    &&& forall|t: int|
                        0 <= t < pb.tools@.len() ==> {
                            let pt = #[trigger] pb.tools@[t];
                            let ut = hs[c].tools@[t];
                            &&& pt.upstream@ == ut.name@
                            &&& pt.public_name@ == public_name_spec(
                                hs[c].descriptor@.prefix,
                                ut.name@,
                            )
                            &&& pt.description == ut.description
                            &&& pt.input_schema@ == ut.input_schema@
                        }
                },
        decreases nb - b,
    {
        let backend = &report.healthy[b];
        let prefix = backend.descriptor.prefix();
        let id = backend.descriptor.id();
        let nt = backend.tools.len();
        let ghost base = sources_upto(hs, b as int);
        let ghost srcs = backend_sources(hs[b as int]);
        proof {
            lemma_sources_step(hs, b as int);
        }
        let mut tools: Vec<PlannedTool> = Vec::new();
        let mut t: usize = 0;
        while t < nt
            invariant
                nb == hs.len(),
                hs == report.healthy@,
                b < nb,
                *backend == hs[b as int],
                prefix@ == hs[b as int].descriptor@.prefix,
                id@ == hs[b as int].descriptor@.id,
                nt == hs[b as int].tools@.len(),
                srcs == backend_sources(hs[b as int]),
                base == sources_upto(hs, b as int),
                t <= nt,
                tools@.len() == t,
                ({
                    let s = base + srcs.take(t as int);
                    &&& seen_names@.len() == s.len()
                    &&& seen_ids@.len() == s.len()
                    &&& seen_upstreams@.len() == s.len()
                    &&& total == s.len()
                    &&& forall|k: int|
                        0 <= k < s.len() ==> #[trigger] seen_names@[k]@ == s[k].0 && seen_ids@[k]@
                            == s[k].1 && seen_upstreams@[k]@ == s[k].2
                    &&& names_distinct(s)
                }),
                forall|u: int|
                    0 <= u < t ==> {
                        let pt = #[trigger] tools@[u];
                        let ut = hs[b as int].tools@[u];
                        &&& pt.upstream@ == ut.name@
                        &&& pt.public_name@ == public_name_spec(
                            hs[b as int].descriptor@.prefix,
                            ut.name@,
                        )
                        &&& pt.description == ut.description
                        &&& pt.input_schema@ == ut.input_schema@
                    },
            decreases nt - t,
        {
            let tool = &backend.tools[t];
            let public_name = public_tool_name(prefix, tool.name.as_str());
            let ghost s = base + srcs.take(t as int);
            let ghost s2 = base + srcs.take(t + 1);
            assert(s2 =~= s.push(srcs[t as int]));
            assert(srcs[t as int] == (public_name@, id@, tool.name@));
            let m = seen_names.len();
            let mut k: usize = 0;
            while k < m
                invariant
                    nb == hs.len(),
                    hs == report.healthy@,
                    b < nb,
                    t < nt,
                    nt == hs[b as int].tools@.len(),
                    base == sources_upto(hs, b as int),
                    srcs == backend_sources(hs[b as int]),
                    s == base + srcs.take(t as int),
                    s2 == s.push(srcs[t as int]),
                    s2 == base + srcs.take(t + 1),
                    srcs[t as int] == (public_name@, id@, tool.name@),
                    names_distinct(s),
                    m == seen_names@.len(),
                    m == s.len(),
                    k <= m,
                    forall|q: int| 0 <= q < k ==> #[trigger] seen_names@[q]@ != public_name@,
                    forall|q: int|
                        0 <= q < s.len() ==> #[trigger] seen_names@[q]@ == s[q].0
                            && seen_ids@[q]@ == s[q].1 && seen_upstreams@[q]@ == s[q].2,
                    seen_ids@.len() == m,
                    seen_upstreams@.len() == m,
                decreases m - k,
            {
                if str_eq(seen_names[k].as_str(), public_name.as_str()) {
                    let ghost full = plan_sources(*report);
                    proof {
                        lemma_sources_prefix(hs, b as int, t as int);
                        assert(s2 == full.take(s.len() as int + 1));
                        assert(full[k as int] == s2[k as int]);
                        assert(full[s.len() as int] == s2[s.len() as int]);
                        assert(full.take(s.len() as int) =~= s);
                        assert(full[k as int].0 == full[s.len() as int].0);
                    }
                    return Err(
                        GatewayError::ToolNameCollision {
                            public_name,
                            first_backend: String::from_str(seen_ids[k]),
                            first_upstream: String::from_str(seen_upstreams[k]),
                            second_backend: String::from_str(id),
                            second_upstream: tool.name.clone(),
                        },
                    );
                }
                k = k + 1;
            }
            tools.push(
                PlannedTool {
                    upstream: tool.name.clone(),
                    public_name: public_tool_name(prefix, tool.name.as_str()),
                    description: clone_opt_string(&tool.description),
                    input_schema: tool.input_schema.clone(),
                },
            );
            proof {
                assert forall|i: int, j: int| 0 <= i < j < s2.len() implies (#[trigger] s2[i]).0
                    != (#[trigger] s2[j]).0 by {
                    if j == s.len() {
                        assert(seen_names@[i]@ == s[i].0);
                        assert(s2[i] == s[i]);
                    } else {
                        assert(s2[i] == s[i] && s2[j] == s[j]);
                    }
                }
            }
            seen_names.push(public_name);
            seen_ids.push(id);
            seen_upstreams.push(tool.name.as_str());
            total = seen_names.len();
            t = t + 1;
        }
        assert(srcs.take(nt as int) =~= srcs);
        backends.push(
            PlannedBackend { id: String::from_str(id), prefix: String::from_str(prefix), tools },
        );
        b = b + 1;
    }
    proof {
        assert(plan_sources(*report) == sources_upto(hs, nb as int));
    }
    Ok(ToolPlan { backends, total_tools: total })
}

/// The planned names of the first `b` backends, followed by part of the
/// next backend's names, are a prefix of the full plan.
proof fn lemma_sources_prefix(hs: Seq<ProbedBackend>, b: int, t: int)
    requires
        0 <= b < hs.len(),
        0 <= t < hs[b].tools@.len(),
    ensures
        (sources_upto(hs, b) + backend_sources(hs[b]).take(t + 1)).len() <= sources_upto(
            hs,
            hs.len() as int,
        ).len(),
        sources_upto(hs, b) + backend_sources(hs[b]).take(t + 1) == sources_upto(
            hs,
            hs.len() as int,
        ).take(sources_upto(hs, b).len() + t + 1),
{
    lemma_sources_is_prefix(hs, b + 1, hs.len() as int);
    let p = sources_upto(hs, b) + backend_sources(hs[b]).take(t + 1);
    let q = sources_upto(hs, b + 1);
    assert(p =~= q.take(p.len() as int));
}

proof fn lemma_sources_is_prefix(hs: Seq<ProbedBackend>, a: int, c: int)
    requires
        0 <= a <= c <= hs.len(),
    ensures
        sources_upto(hs, a).is_prefix_of(sources_upto(hs, c)),
    decreases c - a,
{
    if a < c {
        lemma_sources_is_prefix(hs, a, c - 1);
        let x = sources_upto(hs, a);
        let y = sources_upto(hs, c - 1);
        let z = sources_upto(hs, c);
        assert(z == y + backend_sources(hs[c - 1]));
        assert(x =~= z.subrange(0, x.len() as int));
    }
}

} // verus!
