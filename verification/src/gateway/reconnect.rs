//! Backend transport recovery decisions for long-lived gateway processes.
//!
//! The monitor never retries a client tool call. It only rebuilds an MCP
//! backend transport after the backend itself has disappeared and come
//! back (two consecutive reachable probes after an outage), or after its
//! MCP health has stayed unhealthy across two consecutive health checks.
//!
//! This module holds the decisions: which backends are monitored, when a
//! backend is probed, and how each probe result moves a backend's state.
//! Probing, sleeping and replacing transports is done by the caller.

use vstd::prelude::*;
use vstd::string::*;

use crate::config::legacy::{LegacyBackend, LegacyConfig};
use crate::gateway::url::{opt_parts_view, parse_url_parts, url_parts, UrlParts};
use crate::config::validate::{
    is_loopback_mcp_url, is_exact_loopback_mcp_url, LOOPBACK_HOST, LOOPBACK_URL_PREFIX, MCP_PATH,
};
use crate::text::{
    find_char, find_char_from, lemma_find_char_from, opt_view, parse_u16, parse_u16_spec,
    starts_with, str_eq,
};

verus! {

/// Poll interval of the monitor, in milliseconds.
pub const RECONNECT_POLL_INTERVAL_MS: u64 = 500;

/// Minimum time between reachability probes of a remote backend, in
/// milliseconds.
pub const REMOTE_RECONNECT_POLL_INTERVAL_MS: u64 = 30000;

/// Reachability probe timeout, in milliseconds.
pub const RECONNECT_PROBE_TIMEOUT_MS: u64 = 250;

/// Health check timeout, in milliseconds.
pub const RECONNECT_HEALTH_TIMEOUT_MS: u64 = 2000;

/// Consecutive reachable probes after an outage before reconnecting.
pub const RECONNECT_STABLE_PROBES: u8 = 2;

/// Consecutive unhealthy health reports before reconnecting.
pub const RECONNECT_UNHEALTHY_PROBES: u8 = 2;

/// The endpoint a parsed URL yields: its host and port when the path is
/// exactly `/mcp` and both are present.
pub open spec fn endpoint_of_parts(
    parts: Option<(Seq<char>, Option<Seq<char>>, Option<u16>, Seq<char>)>,
) -> Option<(Seq<char>, u16)> {
    match parts {
        Some((path, Some(host), Some(port), _)) => if path == "/mcp"@ {
            Some((host, port))
        } else {
            None
        },
        _ => None,
    }
}

/// Decide the endpoint of parsed URL parts (see [`endpoint_of_parts`]).
pub fn endpoint_from_parts(parts: Option<UrlParts>) -> (r: Option<(String, u16)>)
    ensures
        match r {
            Some((h, p)) => endpoint_of_parts(opt_parts_view(parts)) == Some((h@, p)),
            None => endpoint_of_parts(opt_parts_view(parts)) is None,
        },
{
    match parts {
        Some(p) => {
            if !str_eq(p.path.as_str(), "/mcp") {
                return None;
            }
            match (p.host, p.port) {
                (Some(h), Some(port)) => Some((h, port)),
                _ => None,
            }
        },
        None => None,
    }
}

/// Host and port of a backend endpoint URL whose path is exactly `/mcp`.
pub fn endpoint_from_url(url: &str) -> (r: Option<(String, u16)>)
    ensures
        match r {
            Some((h, p)) => endpoint_of_parts(url_parts(url@)) == Some((h@, p)),
            None => endpoint_of_parts(url_parts(url@)) is None,
        },
{
    endpoint_from_parts(parse_url_parts(url))
}

/// The port of an exact loopback `http://127.0.0.1:<port>/mcp` URL.
pub open spec fn loopback_port_spec(url: Seq<char>) -> Option<u16> {
    if is_loopback_mcp_url(url) {
        let rest = url.skip(LOOPBACK_URL_PREFIX@.len() as int);
        parse_u16_spec(rest.take(find_char_from(rest, '/', 0)))
    } else {
        None
    }
}

/// The port of an exact loopback `http://127.0.0.1:<port>/mcp` URL, or
/// `None` for any other URL.
pub fn loopback_port(url: &str) -> (r: Option<u16>)
    ensures
        r == loopback_port_spec(url@),
        r matches Some(p) ==> p > 0,
{
    if !is_exact_loopback_mcp_url(url) {
        return None;
    }
    let plen = LOOPBACK_URL_PREFIX.unicode_len();
    let n = url.unicode_len();
    let rest = url.substring_char(plen, n);
    assert(rest@ =~= url@.skip(plen as int));
    let k = find_char(rest, '/', 0);
    proof {
        lemma_find_char_from(rest@, '/', 0);
    }
    let port = rest.substring_char(0, k);
    assert(port@ =~= rest@.take(k as int));
    parse_u16(port)
}

/// What the monitor knows about one backend's transport.
#[derive(Debug, Clone)]
pub struct BackendReconnectSpec {
    /// Backend (namespace) name.
    pub name: String,
    /// Endpoint URL.
    pub url: String,
    /// Endpoint host.
    pub host: String,
    /// Endpoint port.
    pub port: u16,
    /// Whether the host is anything but `127.0.0.1`.
    pub remote: bool,
    /// Credential to pass to the rebuilt transport.
    pub bearer_token: Option<String>,
    /// Request timeout of the rebuilt transport.
    pub timeout_seconds: Option<u64>,
}

/// The backend is monitored at this endpoint.
pub open spec fn spec_for(s: BackendReconnectSpec, b: LegacyBackend) -> bool {
    &&& b.url matches Some(u) && s.url@ == u@ && endpoint_of_parts(url_parts(u@)) == Some(
        (s.host@, s.port),
    )
    &&& s.name@ == b.name@
    &&& s.remote == (s.host@ != LOOPBACK_HOST@)
    &&& opt_view(s.bearer_token) == opt_view(b.bearer_token)
    &&& s.timeout_seconds == b.timeout_seconds
}

/// The backend has a URL that yields an endpoint.
pub open spec fn monitorable(b: LegacyBackend) -> bool {
    b.url matches Some(u) && endpoint_of_parts(url_parts(u@)) is Some
}

/// Positions of the monitorable backends among the first `n`, in order.
pub open spec fn monitorable_positions(bs: Seq<LegacyBackend>, n: int) -> Seq<int>
    decreases n,
{
    if n <= 0 {
        Seq::empty()
    } else if monitorable(bs[n - 1]) {
        monitorable_positions(bs, n - 1).push(n - 1)
    } else {
        monitorable_positions(bs, n - 1)
    }
}

fn clone_opt(o: &Option<String>) -> (r: Option<String>)
    ensures
        opt_view(r) == opt_view(*o),
{
    match o {
        Some(s) => Some(s.clone()),
        None => None,
    }
}

/// The reconnect specifications of every backend with a URL whose path is
/// `/mcp` and whose host and port are known, in configuration order.
pub fn specs(config: &LegacyConfig) -> (r: Vec<BackendReconnectSpec>)
    ensures
        ({
            let ps = monitorable_positions(config.backends@, config.backends@.len() as int);
            &&& r@.len() == ps.len()
            &&& forall|k: int|
                0 <= k < ps.len() ==> spec_for(#[trigger] r@[k], config.backends@[ps[k]])
        }),
{
    let ghost bs = config.backends@;
    let n = config.backends.len();
    let mut out: Vec<BackendReconnectSpec> = Vec::new();
    let mut i: usize = 0;
    while i < n
        invariant
            n == bs.len(),
            bs == config.backends@,
            i <= n,
            out@.len() == monitorable_positions(bs, i as int).len(),
            forall|k: int|
                0 <= k < out@.len() ==> spec_for(
                    #[trigger] out@[k],
                    bs[monitorable_positions(bs, i as int)[k]],
                ),
        decreases n - i,
    {
        let b = &config.backends[i];
        assert(bs[i as int] == *b);
        match &b.url {
            Some(url) => match endpoint_from_url(url.as_str()) {
                Some((host, port)) => {
                    let remote = !str_eq(host.as_str(), LOOPBACK_HOST);
                    out.push(
                        BackendReconnectSpec {
                            name: b.name.clone(),
                            url: url.clone(),
                            host,
                            port,
                            remote,
                            bearer_token: clone_opt(&b.bearer_token),
                            timeout_seconds: b.timeout_seconds,
                        },
                    );
                },
                None => {},
            },
            None => {},
        }
        i = i + 1;
    }
    out
}

/// Per-backend monitor state.
#[derive(Debug, Clone, Copy, PartialEq, Eq)]
pub struct ReconnectState {
    /// The backend was seen unreachable since its transport was last built.
    pub observed_down: bool,
    /// Consecutive reachable probes since the outage.
    pub stable_up_probes: u8,
    /// Consecutive unhealthy MCP health reports.
    pub unhealthy_probes: u8,
    /// The transport is due to be rebuilt.
    pub reconnect_pending: bool,
}

/// What one probe cycle asks of the caller for one backend.
#[derive(Debug, Clone, Copy, PartialEq, Eq)]
pub struct ProbeAction {
    /// Rebuild the backend transport now.
    pub reconnect: bool,
    /// The backend just became unreachable (worth a warning).
    pub became_unreachable: bool,
    /// The backend's MCP health just turned unhealthy (worth a warning).
    pub first_unhealthy: bool,
}

/// The state a fresh monitor starts from: a backend that is not among the
/// active namespaces counts as down.
pub open spec fn initial_state_spec(active: bool) -> ReconnectState {
    ReconnectState {
        observed_down: !active,
        stable_up_probes: 0,
        unhealthy_probes: 0,
        reconnect_pending: false,
    }
}

pub open spec fn sat_inc(v: u8) -> u8 {
    if v == 255 {
        255
    } else {
        (v + 1) as u8
    }
}

/// The state after one probe cycle: `reachable` is the result of the
/// reachability probe, `health` this backend's entry in the latest MCP
/// health check (`None` when absent or when the check timed out).
pub open spec fn next_state(s: ReconnectState, reachable: bool, health: Option<bool>) -> ReconnectState {
    if !reachable {
        ReconnectState {
            observed_down: true,
            stable_up_probes: 0,
            unhealthy_probes: 0,
            reconnect_pending: false,
        }
    } else if s.observed_down {
        let stable = sat_inc(s.stable_up_probes);
        ReconnectState {
            stable_up_probes: stable,
            reconnect_pending: s.reconnect_pending || stable >= RECONNECT_STABLE_PROBES,
            ..s
        }
    } else if !s.reconnect_pending {
        match health {
            Some(true) => ReconnectState { unhealthy_probes: 0, ..s },
            Some(false) => {
                let bad = sat_inc(s.unhealthy_probes);
                ReconnectState {
                    unhealthy_probes: bad,
                    reconnect_pending: bad >= RECONNECT_UNHEALTHY_PROBES,
                    ..s
                }
            },
            None => s,
        }
    } else {
        s
    }
}

/// The action of one probe cycle.
pub open spec fn probe_action(s: ReconnectState, reachable: bool, health: Option<bool>) -> ProbeAction {
    let n = next_state(s, reachable, health);
    ProbeAction {
        reconnect: reachable && n.reconnect_pending,
        became_unreachable: !reachable && !s.observed_down,
        first_unhealthy: reachable && !s.observed_down && !s.reconnect_pending && health == Some(
            false,
        ) && n.unhealthy_probes == 1,
    }
}

/// A state the monitor can be in: a pending reconnect is always backed by
/// two confirmations of the same kind.
pub open spec fn state_wf(s: ReconnectState) -> bool {
    s.reconnect_pending ==> (s.observed_down && s.stable_up_probes >= RECONNECT_STABLE_PROBES) || (
    !s.observed_down && s.unhealthy_probes >= RECONNECT_UNHEALTHY_PROBES)
}

impl ReconnectState {
    /// The starting state of a monitored backend.
    pub fn initial(active: bool) -> (r: Self)
        ensures
            r == initial_state_spec(active),
    {
        ReconnectState {
            observed_down: !active,
            stable_up_probes: 0,
            unhealthy_probes: 0,
            reconnect_pending: false,
        }
    }

    /// Apply one probe cycle and say what the caller must do.
    pub fn on_probe(&mut self, reachable: bool, health: Option<bool>) -> (r: ProbeAction)
        ensures
            *final(self) == next_state(*old(self), reachable, health),
            r == probe_action(*old(self), reachable, health),
    {
        let was_down = self.observed_down;
        let was_pending = self.reconnect_pending;
        if !reachable {
            *self = ReconnectState {
                observed_down: true,
                stable_up_probes: 0,
                unhealthy_probes: 0,
                reconnect_pending: false,
            };
            return ProbeAction {
                reconnect: false,
                became_unreachable: !was_down,
                first_unhealthy: false,
            };
        }
        let mut first_unhealthy = false;
        if self.observed_down {
            self.stable_up_probes = self.stable_up_probes.saturating_add(1);
            if self.stable_up_probes >= RECONNECT_STABLE_PROBES {
                self.reconnect_pending = true;
            }
        } else if !self.reconnect_pending {
            match health {
                Some(true) => {
                    self.unhealthy_probes = 0;
                },
                Some(false) => {
                    self.unhealthy_probes = self.unhealthy_probes.saturating_add(1);
                    if self.unhealthy_probes == 1 {
                        first_unhealthy = true;
                    }
                    if self.unhealthy_probes >= RECONNECT_UNHEALTHY_PROBES {
                        self.reconnect_pending = true;
                    }
                },
                None => {},
            }
        }
        ProbeAction { reconnect: self.reconnect_pending, became_unreachable: false, first_unhealthy }
    }

    /// Record the outcome of a transport rebuild: success starts over from
    /// a clean state; failure keeps the reconnect pending for the next
    /// cycle.
    pub fn on_reconnect_result(&mut self, succeeded: bool)
        ensures
            *final(self) == (if succeeded {
                initial_state_spec(true)
            } else {
                *old(self)
            }),
    {
        if succeeded {
            *self = ReconnectState::initial(true);
        }
    }

    /// Why the transport was rebuilt: after a restart (outage), or after
    /// MCP health failures.
    pub fn reconnected_after_restart(&self) -> (r: bool)
        ensures
            r == self.observed_down,
    {
        self.observed_down
    }
}

/// Whether a backend is probed in this cycle: loopback backends every
/// cycle, remote backends at most once per remote interval.
/// `since_last_probe_ms` is the time since this backend's last probe, if
/// it was probed before.
pub fn should_probe(remote: bool, since_last_probe_ms: Option<u64>) -> (r: bool)
    ensures
        r == !(remote && (since_last_probe_ms matches Some(t) && t
            < REMOTE_RECONNECT_POLL_INTERVAL_MS)),
{
    match since_last_probe_ms {
        Some(t) => !(remote && t < REMOTE_RECONNECT_POLL_INTERVAL_MS),
        None => true,
    }
}

/// Every reachable state is well formed: a pending reconnect is always
/// backed by two confirmations of the same kind, and an unreachable probe
/// always clears it.
pub proof fn law_probe_keeps_state_wf(s: ReconnectState, reachable: bool, health: Option<bool>)
    requires
        state_wf(s),
    ensures
        state_wf(next_state(s, reachable, health)),
        !reachable ==> !next_state(s, reachable, health).reconnect_pending,
        !reachable ==> !probe_action(s, reachable, health).reconnect,
{
}

/// A fresh state is well formed, and one probe alone never asks for a
/// reconnect: every rebuild waits for a confirming probe.
pub proof fn law_single_probe_never_reconnects(active: bool, reachable: bool, health: Option<bool>)
    ensures
        state_wf(initial_state_spec(active)),
        !probe_action(initial_state_spec(active), reachable, health).reconnect,
{
}

/// After an outage, two consecutive reachable probes ask for a reconnect.
pub proof fn law_restart_reconnects_after_two_probes(s: ReconnectState, h1: Option<bool>, h2: Option<bool>)
    requires
        s.observed_down,
        s.stable_up_probes == 0,
    ensures
        probe_action(next_state(s, true, h1), true, h2).reconnect,
{
}

/// A healthy backend whose MCP health is reported unhealthy twice in a row
/// is reconnected; a healthy report in between starts the count over.
pub proof fn law_two_unhealthy_reports_reconnect(s: ReconnectState)
    requires
        !s.observed_down,
        !s.reconnect_pending,
        s.unhealthy_probes == 0,
    ensures
        !probe_action(s, true, Some(false)).reconnect,
        probe_action(next_state(s, true, Some(false)), true, Some(false)).reconnect,
        !probe_action(next_state(next_state(s, true, Some(false)), true, Some(true)), true, Some(false)).reconnect,
{
}

/// A backend that is not among the active namespaces when the monitor
/// starts counts as down: whatever the health check says, its second
/// reachable probe asks for the transport to be built, and the rebuild is
/// reported as one after a restart. An active backend that keeps being
/// reachable with no bad health report is never rebuilt on its first two
/// probes.
pub proof fn law_inactive_backend_is_attached_after_two_probes(h1: Option<bool>, h2: Option<bool>)
    ensures
        initial_state_spec(false).observed_down,
        !initial_state_spec(true).observed_down,
        !probe_action(initial_state_spec(false), true, h1).reconnect,
        probe_action(next_state(initial_state_spec(false), true, h1), true, h2).reconnect,
        next_state(next_state(initial_state_spec(false), true, h1), true, h2).observed_down,
        h1 != Some(false) && h2 != Some(false) ==> !probe_action(
            next_state(initial_state_spec(true), true, h1),
            true,
            h2,
        ).reconnect,
{
}

/// State after a run of reachable probes with the given health reports.
pub open spec fn after_reachable_probes(s: ReconnectState, reports: Seq<Option<bool>>) -> ReconnectState
    decreases reports.len(),
{
    if reports.len() == 0 {
        s
    } else {
        next_state(after_reachable_probes(s, reports.drop_last()), true, reports.last())
    }
}

/// A reachable backend that is up and not due for a rebuild is left as it
/// is when the health check has no entry for it.
pub proof fn law_missing_health_entry_changes_nothing(s: ReconnectState)
    requires
        !s.observed_down,
        !s.reconnect_pending,
    ensures
        next_state(s, true, None) == s,
        probe_action(s, true, None) == (ProbeAction {
            reconnect: false,
            became_unreachable: false,
            first_unhealthy: false,
        }),
{
}

/// Only unhealthy reports rebuild a reachable backend that is up: over any
/// run of reachable probes whose health reports are all healthy or
/// missing, it is never due for a rebuild and stays up, and its count of
/// unhealthy reports never grows.
pub proof fn law_only_unhealthy_reports_lead_to_a_rebuild(s: ReconnectState, reports: Seq<Option<bool>>)
    requires
        !s.observed_down,
        !s.reconnect_pending,
        forall|k: int| 0 <= k < reports.len() ==> #[trigger] reports[k] != Some(false),
    ensures
        !after_reachable_probes(s, reports).observed_down,
        !after_reachable_probes(s, reports).reconnect_pending,
        after_reachable_probes(s, reports).unhealthy_probes <= s.unhealthy_probes,
        reports.len() > 0 ==> !probe_action(
            after_reachable_probes(s, reports.drop_last()),
            true,
            reports.last(),
        ).reconnect,
    decreases reports.len(),
{
    if reports.len() > 0 {
        let rest = reports.drop_last();
        assert forall|k: int| 0 <= k < rest.len() implies #[trigger] rest[k] != Some(false) by {
            assert(rest[k] == reports[k]);
        }
        law_only_unhealthy_reports_lead_to_a_rebuild(s, rest);
        assert(reports.last() == reports[reports.len() - 1]);
    }
}

} // verus!
