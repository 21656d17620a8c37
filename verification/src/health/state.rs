//! Liveness and readiness are distinct concerns.
//!
//! * Liveness (`/healthz`): the process is up; always `200` while serving.
//! * Readiness (`/readyz`): per-backend health observed by the background
//!   monitor. Readiness is earned by observation: it is `503` until every
//!   required backend has been observed healthy and at least one backend
//!   is healthy. Optional backends that are down degrade readiness
//!   reporting but never block the gateway.

use vstd::prelude::*;
use vstd::string::*;

use crate::backend::descriptor::DescriptorView;
use crate::backend::probe::{ProbeReport, ProbedBackend, UnavailableBackend};
use crate::backend::registry::BackendRegistry;
use crate::text::{
    decimal, joined, json_quoted, json_string, lemma_joined_push, render_decimal, opt_view, lemma_seq_lt_irreflexive, lemma_seq_lt_total, lemma_seq_lt_transitive, seq_lt, str_eq,
    str_lt,
};

verus! {

/// Observed health of one backend.
#[derive(Debug)]
pub struct BackendHealth {
    /// Whether the latest observation succeeded.
    pub healthy: bool,
    /// Whether an outage of this backend must hold readiness down.
    pub required: bool,
    /// The failure reason of the latest failed observation (never includes
    /// request payloads, URLs, or secrets).
    pub error: Option<String>,
}

/// The abstract health of one backend: (healthy, required, error).
pub type HealthView = (bool, bool, Option<Seq<char>>);

pub open spec fn health_view(h: BackendHealth) -> HealthView {
    (h.healthy, h.required, opt_view(h.error))
}

fn clone_error(o: &Option<String>) -> (r: Option<String>)
    ensures
        opt_view(r) == opt_view(*o),
{
    match o {
        Some(s) => Some(s.clone()),
        None => None,
    }
}

impl Clone for BackendHealth {
    fn clone(&self) -> (r: Self)
        ensures
            health_view(r) == health_view(*self),
    {
        BackendHealth {
            healthy: self.healthy,
            required: self.required,
            error: clone_error(&self.error),
        }
    }
}

#[derive(Debug)]
struct HealthEntry {
    id: String,
    health: BackendHealth,
}

spec fn entry_view(e: HealthEntry) -> (Seq<char>, HealthView) {
    (e.id@, health_view(e.health))
}

/// Entries with strictly increasing ids.
pub open spec fn sorted_keys(es: Seq<(Seq<char>, HealthView)>) -> bool {
    forall|i: int, j: int| 0 <= i < j < es.len() ==> seq_lt((#[trigger] es[i]).0, (#[trigger] es[j]).0)
}

pub open spec fn has_key(es: Seq<(Seq<char>, HealthView)>, k: Seq<char>) -> bool {
    exists|i: int| 0 <= i < es.len() && (#[trigger] es[i]).0 == k
}

pub open spec fn key_index(es: Seq<(Seq<char>, HealthView)>, k: Seq<char>) -> int {
    choose|i: int| 0 <= i < es.len() && (#[trigger] es[i]).0 == k
}

pub open spec fn value_at(es: Seq<(Seq<char>, HealthView)>, k: Seq<char>) -> HealthView {
    es[key_index(es, k)].1
}

/// The map that a sorted entry list denotes.
pub open spec fn map_of(es: Seq<(Seq<char>, HealthView)>) -> Map<Seq<char>, HealthView> {
    Map::new(|k: Seq<char>| has_key(es, k), |k: Seq<char>| value_at(es, k))
}

/// Strictly increasing sequence of ids.
pub open spec fn sorted_ids(ids: Seq<Seq<char>>) -> bool {
    forall|i: int, j: int| 0 <= i < j < ids.len() ==> seq_lt(#[trigger] ids[i], #[trigger] ids[j])
}

/// Readiness rule: every required backend is healthy, and at least one
/// backend is healthy (so an empty state is never ready).
pub open spec fn ready_spec(m: Map<Seq<char>, HealthView>) -> bool {
    &&& forall|k: Seq<char>| m.contains_key(k) && (#[trigger] m[k]).1 ==> m[k].0
    &&& exists|k: Seq<char>| m.contains_key(k) && (#[trigger] m[k]).0
}

/// Effect of registering a backend: unchanged if already tracked,
/// otherwise tracked as not yet observed healthy.
pub open spec fn register_spec(
    m: Map<Seq<char>, HealthView>,
    id: Seq<char>,
    required: bool,
) -> Map<Seq<char>, HealthView> {
    if m.contains_key(id) {
        m
    } else {
        m.insert(id, (false, required, None))
    }
}

/// Effect of one observation: unknown backends are inserted as optional;
/// a healthy observation clears the error, an unhealthy one keeps the
/// previous error when no new reason is given.
pub open spec fn observe_spec(
    m: Map<Seq<char>, HealthView>,
    id: Seq<char>,
    healthy: bool,
    error: Option<Seq<char>>,
) -> Map<Seq<char>, HealthView> {
    let prev: HealthView = if m.contains_key(id) {
        m[id]
    } else {
        (false, false, None)
    };
    m.insert(
        id,
        (
            healthy,
            prev.1,
            if healthy {
                None
            } else if error is Some {
                error
            } else {
                prev.2
            },
        ),
    )
}

/// Registering is idempotent: registering a tracked backend again, with
/// any `required` flag, changes nothing.
pub proof fn law_register_idempotent(
    m: Map<Seq<char>, HealthView>,
    id: Seq<char>,
    required: bool,
    again: bool,
)
    ensures
        register_spec(register_spec(m, id, required), id, again) == register_spec(
            m,
            id,
            required,
        ),
{
}

/// Registration alone never earns readiness: a state that is not ready
/// stays not ready when a backend is registered.
pub proof fn law_register_never_makes_ready(
    m: Map<Seq<char>, HealthView>,
    id: Seq<char>,
    required: bool,
)
    requires
        !ready_spec(m),
    ensures
        !ready_spec(register_spec(m, id, required)),
{
    let n = register_spec(m, id, required);
    if !m.contains_key(id) {
        if exists|k: Seq<char>| m.contains_key(k) && (#[trigger] m[k]).1 && !m[k].0 {
            let k = choose|k: Seq<char>| m.contains_key(k) && (#[trigger] m[k]).1 && !m[k].0;
            assert(n.contains_key(k) && n[k].1 && !n[k].0);
        } else {
            assert forall|k: Seq<char>| n.contains_key(k) implies !(#[trigger] n[k]).0 by {
                if k != id {
                    assert(m.contains_key(k));
                }
            }
        }
    }
}

/// A state with no healthy observation is never ready; in particular an
/// empty tracker, or one holding only registrations, is not ready.
pub proof fn law_unobserved_never_ready(m: Map<Seq<char>, HealthView>)
    requires
        forall|k: Seq<char>| m.contains_key(k) ==> !(#[trigger] m[k]).0,
    ensures
        !ready_spec(m),
{
}

/// A required backend observed unhealthy holds readiness down, whatever
/// the other backends report.
pub proof fn law_required_failure_never_ready(
    m: Map<Seq<char>, HealthView>,
    id: Seq<char>,
    error: Option<Seq<char>>,
)
    requires
        m.contains_key(id),
        m[id].1,
    ensures
        !ready_spec(observe_spec(m, id, false, error)),
{
    let n = observe_spec(m, id, false, error);
    assert(n.contains_key(id) && n[id].1 && !n[id].0);
}

/// Observing one backend leaves every other backend's state unchanged.
pub proof fn law_observations_are_independent(
    m: Map<Seq<char>, HealthView>,
    id: Seq<char>,
    healthy: bool,
    error: Option<Seq<char>>,
    other: Seq<char>,
)
    requires
        other != id,
    ensures
        observe_spec(m, id, healthy, error).contains_key(other) == m.contains_key(other),
        m.contains_key(other) ==> observe_spec(m, id, healthy, error)[other] == m[other],
{
}

/// Observations never change whether a backend is required, and a healthy
/// observation clears the stored error.
pub proof fn law_observe_keeps_required_and_clears_error(
    m: Map<Seq<char>, HealthView>,
    id: Seq<char>,
    error: Option<Seq<char>>,
)
    requires
        m.contains_key(id),
    ensures
        observe_spec(m, id, true, error)[id] == (true, m[id].1, None::<Seq<char>>),
        observe_spec(m, id, false, error)[id].1 == m[id].1,
{
}

/// Recovery: when every other required backend is healthy, a healthy
/// observation of `id` makes the state ready.
pub proof fn law_healthy_observation_restores_readiness(
    m: Map<Seq<char>, HealthView>,
    id: Seq<char>,
)
    requires
        forall|k: Seq<char>| k != id && m.contains_key(k) && (#[trigger] m[k]).1 ==> m[k].0,
    ensures
        ready_spec(observe_spec(m, id, true, None)),
{
    let n = observe_spec(m, id, true, None);
    assert(n.contains_key(id) && n[id].0);
}

/// Immutable per-backend health snapshot served by `/readyz`.
#[derive(Debug)]
pub struct HealthState {
    entries: Vec<HealthEntry>,
}

impl View for HealthState {
    type V = Map<Seq<char>, HealthView>;

    closed spec fn view(&self) -> Map<Seq<char>, HealthView> {
        map_of(self.entries_view())
    }
}

proof fn lemma_map_of_get(es: Seq<(Seq<char>, HealthView)>, i: int)
    requires
        sorted_keys(es),
        0 <= i < es.len(),
    ensures
        map_of(es).contains_key(es[i].0),
        map_of(es)[es[i].0] == es[i].1,
{
    let k = es[i].0;
    assert(has_key(es, k));
    let j = key_index(es, k);
    if j != i {
        if j < i {
            assert(seq_lt(es[j].0, es[i].0));
        } else {
            assert(seq_lt(es[i].0, es[j].0));
        }
        lemma_seq_lt_irreflexive(k);
    }
    assert(j == i);
    assert(value_at(es, k) == es[j].1);
}

impl HealthState {
    closed spec fn entries_view(&self) -> Seq<(Seq<char>, HealthView)> {
        self.entries@.map_values(|e: HealthEntry| entry_view(e))
    }

    /// The tracked ids in increasing order.
    pub closed spec fn ids(&self) -> Seq<Seq<char>> {
        self.entries_view().map_values(|e: (Seq<char>, HealthView)| e.0)
    }

    #[verifier::type_invariant]
    spec fn inv(&self) -> bool {
        sorted_keys(self.entries_view())
    }

    /// A state that tracks nothing.
    pub fn empty() -> (r: Self)
        ensures
            r@ == Map::<Seq<char>, HealthView>::empty(),
    {
        let r = HealthState { entries: Vec::new() };
        assert(r@ =~= Map::<Seq<char>, HealthView>::empty());
        r
    }

    /// Readiness rule: every required backend is currently observed healthy
    /// and at least one backend is healthy overall. A required failure never
    /// reports ready; optional failures are reported as degraded.
    pub fn ready(&self) -> (r: bool)
        ensures
            r == ready_spec(self@),
    {
        proof {
            use_type_invariant(self);
        }
        let ghost es = self.entries_view();
        let n = self.entries.len();
        let mut any_healthy = false;
        let mut required_ok = true;
        let mut i: usize = 0;
        while i < n
            invariant
                n == es.len(),
                es == self.entries_view(),
                sorted_keys(es),
                i <= n,
                any_healthy <==> exists|k: int| 0 <= k < i && (#[trigger] es[k]).1.0,
                required_ok <==> forall|k: int| 0 <= k < i ==> (#[trigger] es[k]).1.1 ==> es[k].1.0,
            decreases n - i,
        {
            let h = &self.entries[i].health;
            assert(es[i as int].1 == health_view(*h));
            if h.healthy {
                any_healthy = true;
            }
            if h.required && !h.healthy {
                required_ok = false;
            }
            i = i + 1;
        }
        proof {
            let m = map_of(es);
            if required_ok {
                assert forall|k: Seq<char>| m.contains_key(k) && (#[trigger] m[k]).1 implies m[k].0 by {
                    let j = choose|j: int| 0 <= j < es.len() && (#[trigger] es[j]).0 == k;
                    lemma_map_of_get(es, j);
                }
            } else {
                let j = choose|j: int| 0 <= j < n && (#[trigger] es[j]).1.1 && !es[j].1.0;
                lemma_map_of_get(es, j);
                assert(m.contains_key(es[j].0) && m[es[j].0].1 && !m[es[j].0].0);
            }
            if any_healthy {
                let j = choose|j: int| 0 <= j < n && (#[trigger] es[j]).1.0;
                lemma_map_of_get(es, j);
                assert(m.contains_key(es[j].0) && m[es[j].0].0);
            } else {
                assert forall|k: Seq<char>| m.contains_key(k) implies !(#[trigger] m[k]).0 by {
                    let j = choose|j: int| 0 <= j < es.len() && (#[trigger] es[j]).0 == k;
                    lemma_map_of_get(es, j);
                }
            }
        }
        n > 0 && required_ok && any_healthy
    }

    /// Ids of backends whose latest observation failed, in increasing
    /// (deterministic) order.
    pub fn degraded(&self) -> (r: Vec<String>)
        ensures
            sorted_ids(r@.map_values(|s: String| s@)),
            forall|k: Seq<char>|
                r@.map_values(|s: String| s@).contains(k) <==> (self@.contains_key(k)
                    && !self@[k].0),
    {
        proof {
            use_type_invariant(self);
        }
        let ghost es = self.entries_view();
        let n = self.entries.len();
        let mut out: Vec<String> = Vec::new();
        let mut i: usize = 0;
        while i < n
            invariant
                n == es.len(),
                es == self.entries_view(),
                sorted_keys(es),
                i <= n,
                sorted_ids(out@.map_values(|s: String| s@)),
                forall|q: int|
                    0 <= q < out@.len() ==> exists|k: int|
                        0 <= k < i && (#[trigger] es[k]).0 == (#[trigger] out@[q])@ && !es[k].1.0,
                forall|k: int|
                    0 <= k < i && !(#[trigger] es[k]).1.0 ==> out@.map_values(|s: String| s@).contains(
                        es[k].0,
                    ),
            decreases n - i,
        {
            let e = &self.entries[i];
            assert(es[i as int] == entry_view(*e));
            if !e.health.healthy {
                let ghost before = out@;
                out.push(e.id.clone());
                proof {
                    let f = |s: String| s@;
                    assert(out@.map_values(f) =~= before.map_values(f).push(es[i as int].0));
                    assert forall|a: int, b: int|
                        0 <= a < b < out@.len() implies seq_lt(
                        #[trigger] out@.map_values(f)[a],
                        #[trigger] out@.map_values(f)[b],
                    ) by {
                        if b == out@.len() - 1 {
                            let k = choose|k: int|
                                0 <= k < i && (#[trigger] es[k]).0 == out@[a]@ && !es[k].1.0;
                            assert(seq_lt(es[k].0, es[i as int].0));
                        } else {
                            assert(before.map_values(f)[a] == out@.map_values(f)[a]);
                            assert(before.map_values(f)[b] == out@.map_values(f)[b]);
                        }
                    }
                    assert forall|q: int| 0 <= q < out@.len() implies exists|k: int|
                        0 <= k < i + 1 && (#[trigger] es[k]).0 == (#[trigger] out@[q])@ && !es[k].1.0 by {
                        if q == out@.len() - 1 {
                            assert(es[i as int].0 == out@[q]@);
                        } else {
                            assert(out@[q] == before[q]);
                        }
                    }
                    assert forall|k: int|
                        0 <= k < i + 1 && !(#[trigger] es[k]).1.0 implies out@.map_values(f).contains(
                        es[k].0,
                    ) by {
                        if k == i {
                            assert(out@.map_values(f)[out@.len() - 1] == es[k].0);
                        } else {
                            let q = choose|q: int|
                                0 <= q < before.len() && before.map_values(f)[q] == es[k].0;
                            assert(out@.map_values(f)[q] == es[k].0);
                        }
                    }
                }
            }
            i = i + 1;
        }
        proof {
            let m = map_of(es);
            let f = |s: String| s@;
            assert forall|k: Seq<char>|
                out@.map_values(f).contains(k) <==> (m.contains_key(k) && !m[k].0) by {
                if out@.map_values(f).contains(k) {
                    let q = choose|q: int| 0 <= q < out@.len() && out@.map_values(f)[q] == k;
                    assert(out@.map_values(f)[q] == out@[q]@);
                    let j = choose|j: int| 0 <= j < n && (#[trigger] es[j]).0 == out@[q]@ && !es[j].1.0;
                    lemma_map_of_get(es, j);
                }
                if m.contains_key(k) && !m[k].0 {
                    let j = choose|j: int| 0 <= j < es.len() && (#[trigger] es[j]).0 == k;
                    lemma_map_of_get(es, j);
                }
            }
        }
        out
    }

    /// HTTP status code for `/readyz`: `200` when ready, `503` otherwise.
    pub fn http_status(&self) -> (r: u16)
        ensures
            r == (if ready_spec(self@) {
                200u16
            } else {
                503u16
            }),
    {
        if self.ready() {
            200
        } else {
            503
        }
    }

    /// The health of one backend, if it is tracked.
    pub fn get(&self, id: &str) -> (r: Option<&BackendHealth>)
        ensures
            match r {
                Some(h) => self@.contains_key(id@) && self@[id@] == health_view(*h),
                None => !self@.contains_key(id@),
            },
    {
        proof {
            use_type_invariant(self);
        }
        let ghost es = self.entries_view();
        let n = self.entries.len();
        let mut i: usize = 0;
        while i < n
            invariant
                n == es.len(),
                es == self.entries_view(),
                sorted_keys(es),
                i <= n,
                forall|k: int| 0 <= k < i ==> (#[trigger] es[k]).0 != id@,
            decreases n - i,
        {
            let e = &self.entries[i];
            assert(es[i as int] == entry_view(*e));
            if str_eq(e.id.as_str(), id) {
                proof {
                    lemma_map_of_get(es, i as int);
                }
                return Some(&e.health);
            }
            i = i + 1;
        }
        None
    }

    /// Position at which `id` is (or would be) stored, and whether it is
    /// already present.
    fn locate(&self, id: &str) -> (r: (usize, bool))
        ensures
            r.0 <= self.entries_view().len(),
            r.1 ==> r.0 < self.entries_view().len() && self.entries_view()[r.0 as int].0 == id@,
            !r.1 ==> !has_key(self.entries_view(), id@),
            forall|k: int| 0 <= k < r.0 ==> seq_lt((#[trigger] self.entries_view()[k]).0, id@),
            !r.1 ==> forall|k: int|
                r.0 <= k < self.entries_view().len() ==> seq_lt(
                    id@,
                    (#[trigger] self.entries_view()[k]).0,
                ),
    {
        proof {
            use_type_invariant(self);
        }
        let ghost es = self.entries_view();
        let n = self.entries.len();
        let mut i: usize = 0;
        while i < n
            invariant
                n == es.len(),
                es == self.entries_view(),
                sorted_keys(es),
                i <= n,
                forall|k: int| 0 <= k < i ==> seq_lt((#[trigger] es[k]).0, id@),
            decreases n - i,
        {
            let e = &self.entries[i];
            assert(es[i as int] == entry_view(*e));
            if !str_lt(e.id.as_str(), id) {
                let found = str_eq(e.id.as_str(), id);
                proof {
                    if !found {
                        lemma_seq_lt_total(es[i as int].0, id@);
                        assert forall|k: int| i <= k < n implies seq_lt(id@, (#[trigger] es[k]).0) by {
                            if k > i {
                                lemma_seq_lt_transitive(id@, es[i as int].0, es[k].0);
                            }
                        }
                        assert forall|k: int| 0 <= k < n implies (#[trigger] es[k]).0 != id@ by {
                            if k < i {
                                lemma_seq_lt_irreflexive(id@);
                            } else {
                                lemma_seq_lt_irreflexive(id@);
                            }
                        }
                    }
                }
                return (i, found);
            }
            i = i + 1;
        }
        proof {
            assert forall|k: int| 0 <= k < n implies (#[trigger] es[k]).0 != id@ by {
                lemma_seq_lt_irreflexive(id@);
            }
        }
        (n, false)
    }

    /// Insert or replace the entry for `id` at the located position.
    fn put(&mut self, pos: usize, found: bool, id: &str, health: BackendHealth)
        requires
            pos <= old(self).entries_view().len(),
            found ==> pos < old(self).entries_view().len() && old(self).entries_view()[pos as int].0
                == id@,
            !found ==> !has_key(old(self).entries_view(), id@),
            forall|k: int| 0 <= k < pos ==> seq_lt((#[trigger] old(self).entries_view()[k]).0, id@),
            !found ==> forall|k: int|
                pos <= k < old(self).entries_view().len() ==> seq_lt(
                    id@,
                    (#[trigger] old(self).entries_view()[k]).0,
                ),
        ensures
            final(self)@ == old(self)@.insert(id@, health_view(health)),
    {
        proof {
            use_type_invariant(&*self);
        }
        let ghost es = self.entries_view();
        let mut entries: Vec<HealthEntry> = Vec::new();
        std::mem::swap(&mut entries, &mut self.entries);
        let ghost hv = health_view(health);
        let entry = HealthEntry { id: String::from_str(id), health };
        assert(entry_view(entry) == (id@, hv));
        let ghost old_entries = entries@;
        if found {
            entries.set(pos, entry);
        } else {
            entries.insert(pos, entry);
        }
        let ghost ns = entries@.map_values(|e: HealthEntry| entry_view(e));
        proof {
            assert(es == old_entries.map_values(|e: HealthEntry| entry_view(e)));
            if found {
                assert(ns =~= es.update(pos as int, (id@, hv)));
            } else {
                assert(ns =~= es.insert(pos as int, (id@, hv)));
            }
            assert(sorted_keys(ns)) by {
                assert forall|i: int, j: int| 0 <= i < j < ns.len() implies seq_lt(
                    (#[trigger] ns[i]).0,
                    (#[trigger] ns[j]).0,
                ) by {
                    if found {
                        if i == pos {
                            assert(seq_lt(es[i].0, es[j].0));
                        } else if j == pos {
                            assert(seq_lt(es[i].0, es[j].0));
                        } else {
                            assert(seq_lt(es[i].0, es[j].0));
                        }
                    } else {
                        if i == pos {
                            assert(ns[j] == es[j - 1]);
                        } else if j == pos {
                            assert(ns[i] == es[i]);
                        } else if i > pos {
                            assert(ns[i] == es[i - 1] && ns[j] == es[j - 1]);
                        } else if j > pos {
                            assert(ns[i] == es[i] && ns[j] == es[j - 1]);
                            assert(seq_lt(es[i].0, id@));
                            lemma_seq_lt_transitive(es[i].0, id@, es[j - 1].0);
                        } else {
                            assert(ns[i] == es[i] && ns[j] == es[j]);
                        }
                    }
                }
            }
            let m = map_of(es);
            let nm = map_of(ns);
            let target = m.insert(id@, hv);
            assert forall|k: Seq<char>| #[trigger] nm.contains_key(k) <==> target.contains_key(k) by {
                if nm.contains_key(k) {
                    let j = choose|j: int| 0 <= j < ns.len() && (#[trigger] ns[j]).0 == k;
                    if k != id@ {
                        let oj = if found || j < pos {
                            j
                        } else {
                            j - 1
                        };
                        assert(es[oj] == ns[j]);
                        assert(has_key(es, k));
                    }
                }
                if target.contains_key(k) && k != id@ {
                    let j = choose|j: int| 0 <= j < es.len() && (#[trigger] es[j]).0 == k;
                    let nj = if found || j < pos {
                        j
                    } else {
                        j + 1
                    };
                    assert(ns[nj] == es[j]);
                    assert(has_key(ns, k));
                }
                if k == id@ {
                    assert(ns[pos as int].0 == id@);
                    assert(has_key(ns, k));
                }
            }
            assert forall|k: Seq<char>| nm.contains_key(k) implies #[trigger] nm[k] == target[k] by {
                let j = choose|j: int| 0 <= j < ns.len() && (#[trigger] ns[j]).0 == k;
                lemma_map_of_get(ns, j);
                if k == id@ {
                    lemma_map_of_get(ns, pos as int);
                } else {
                    let oj = if found || j < pos {
                        j
                    } else {
                        j - 1
                    };
                    assert(es[oj] == ns[j]);
                    lemma_map_of_get(es, oj);
                }
            }
            assert(nm =~= target);
        }
        self.entries = entries;
    }

    /// Register a backend as observed-nothing-yet. Idempotent: a backend
    /// that is already tracked keeps its current state.
    pub fn register(&mut self, id: &str, required: bool)
        ensures
            final(self)@ == register_spec(old(self)@, id@, required),
    {
        let (pos, found) = self.locate(id);
        proof {
            use_type_invariant(&*self);
            if found {
                lemma_map_of_get(self.entries_view(), pos as int);
            }
        }
        if !found {
            self.put(pos, false, id, BackendHealth { healthy: false, required, error: None });
        }
    }

    /// Record one observation. Unknown backends are inserted as optional.
    /// A healthy observation clears the stored error; an unhealthy one keeps
    /// the previous error when no new reason is given.
    pub fn observe(&mut self, id: &str, healthy: bool, error: Option<String>)
        ensures
            final(self)@ == observe_spec(old(self)@, id@, healthy, opt_view(error)),
    {
        let (pos, found) = self.locate(id);
        proof {
            use_type_invariant(&*self);
            if found {
                lemma_map_of_get(self.entries_view(), pos as int);
            }
        }
        let (required, previous) = if found {
            let h = &self.entries[pos].health;
            assert(self.entries_view()[pos as int].1 == health_view(*h));
            (h.required, clone_error(&h.error))
        } else {
            (false, None)
        };
        let new_error = if healthy {
            None
        } else {
            match error {
                Some(e) => Some(e),
                None => previous,
            }
        };
        self.put(pos, found, id, BackendHealth { healthy, required, error: new_error });
    }
}

/// A JSON boolean.
pub open spec fn bool_json(b: bool) -> Seq<char> {
    if b {
        "true"@
    } else {
        "false"@
    }
}

/// The `per_backend` member of one tracked backend.
pub open spec fn entry_json(e: (Seq<char>, HealthView)) -> Seq<char> {
    json_quoted(e.0) + ":{\"error\":"@ + match e.1.2 {
        Some(m) => json_quoted(m),
        None => "null"@,
    } + ",\"healthy\":"@ + bool_json(e.1.0) + ",\"required\":"@ + bool_json(e.1.1) + "}"@
}

/// Number of required entries.
pub open spec fn count_required(es: Seq<(Seq<char>, HealthView)>) -> nat
    decreases es.len(),
{
    if es.len() == 0 {
        0
    } else {
        count_required(es.drop_last()) + if es.last().1.1 {
            1nat
        } else {
            0nat
        }
    }
}

/// Number of required entries that are healthy.
pub open spec fn count_healthy_required(es: Seq<(Seq<char>, HealthView)>) -> nat
    decreases es.len(),
{
    if es.len() == 0 {
        0
    } else {
        count_healthy_required(es.drop_last()) + if es.last().1.1 && es.last().1.0 {
            1nat
        } else {
            0nat
        }
    }
}

/// Number of healthy entries.
pub open spec fn count_healthy(es: Seq<(Seq<char>, HealthView)>) -> nat
    decreases es.len(),
{
    if es.len() == 0 {
        0
    } else {
        count_healthy(es.drop_last()) + if es.last().1.0 {
            1nat
        } else {
            0nat
        }
    }
}

/// The quoted ids of unhealthy entries, in order.
pub open spec fn degraded_json_items(es: Seq<(Seq<char>, HealthView)>) -> Seq<Seq<char>>
    decreases es.len(),
{
    if es.len() == 0 {
        Seq::empty()
    } else if !es.last().1.0 {
        degraded_json_items(es.drop_last()).push(json_quoted(es.last().0))
    } else {
        degraded_json_items(es.drop_last())
    }
}

/// The `/readyz` body for the entries `es` (in increasing id order): a
/// compact JSON object with its members in lexicographic key order.
pub open spec fn readiness_json(es: Seq<(Seq<char>, HealthView)>, ready: bool) -> Seq<char> {
    "{\"backends\":{\"healthy_required\":"@ + decimal(count_healthy_required(es))
        + ",\"healthy_total\":"@ + decimal(count_healthy(es)) + ",\"required\":"@ + decimal(
        count_required(es),
    ) + ",\"total\":"@ + decimal(es.len()) + "},\"degraded\":["@ + joined(
        degraded_json_items(es),
        ","@,
    ) + "],\"per_backend\":{"@ + joined(es.map_values(|e: (Seq<char>, HealthView)| entry_json(e)), ","@)
        + "},\"status\":\""@ + (if ready {
        "ready"@
    } else {
        "not_ready"@
    }) + "\"}"@
}

fn render_entry(e: &HealthEntry) -> (r: String)
    ensures
        r@ == entry_json(entry_view(*e)),
{
    let mut s = json_string(e.id.as_str());
    s.append(":{\"error\":");
    match &e.health.error {
        Some(m) => s.append(json_string(m.as_str()).as_str()),
        None => s.append("null"),
    }
    s.append(",\"healthy\":");
    s.append(
        if e.health.healthy {
            "true"
        } else {
            "false"
        },
    );
    s.append(",\"required\":");
    s.append(
        if e.health.required {
            "true"
        } else {
            "false"
        },
    );
    s.append("}");
    s
}

impl HealthState {
    /// The tracked entries in increasing id order.
    pub closed spec fn entries_spec(&self) -> Seq<(Seq<char>, HealthView)> {
        self.entries_view()
    }

    /// The `/readyz` JSON body: status, backend counts, degraded ids and
    /// per-backend health. The entries it lists are the tracked backends in
    /// strictly increasing id order.
    pub fn json_body(&self) -> (r: String)
        ensures
            r@ == readiness_json(self.entries_spec(), ready_spec(self@)),
            sorted_keys(self.entries_spec()),
            map_of(self.entries_spec()) == self@,
    {
        proof {
            use_type_invariant(self);
        }
        let ghost es = self.entries_view();
        let ghost f = |e: (Seq<char>, HealthView)| entry_json(e);
        let n = self.entries.len();
        let mut required: usize = 0;
        let mut healthy_required: usize = 0;
        let mut healthy: usize = 0;
        let mut degraded = String::new();
        let mut degraded_count: usize = 0;
        let mut per_backend = String::new();
        let mut i: usize = 0;
        while i < n
            invariant
                n == es.len(),
                es == self.entries_view(),
                f == (|e: (Seq<char>, HealthView)| entry_json(e)),
                i <= n,
                required == count_required(es.take(i as int)),
                healthy_required == count_healthy_required(es.take(i as int)),
                healthy == count_healthy(es.take(i as int)),
                required <= i && healthy_required <= i && healthy <= i,
                degraded_count == degraded_json_items(es.take(i as int)).len(),
                degraded_count <= i,
                degraded@ == joined(degraded_json_items(es.take(i as int)), ","@),
                per_backend@ == joined(es.take(i as int).map_values(f), ","@),
            decreases n - i,
        {
            let e = &self.entries[i];
            let ghost prev = es.take(i as int);
            proof {
                assert(es.take(i as int + 1).drop_last() =~= prev);
                assert(es.take(i as int + 1).last() == es[i as int]);
                assert(es[i as int] == entry_view(*e));
                assert(es.take(i as int + 1).map_values(f) =~= prev.map_values(f).push(f(es[i as int])));
                lemma_joined_push(prev.map_values(f), ","@, f(es[i as int]));
                lemma_joined_push(degraded_json_items(prev), ","@, json_quoted(e.id@));
                reveal_strlit("");
            }
            if e.health.required {
                required = required + 1;
                if e.health.healthy {
                    healthy_required = healthy_required + 1;
                }
            }
            if e.health.healthy {
                healthy = healthy + 1;
            } else {
                if degraded_count > 0 {
                    degraded.append(",");
                }
                degraded.append(json_string(e.id.as_str()).as_str());
                degraded_count = degraded_count + 1;
            }
            if i > 0 {
                per_backend.append(",");
            }
            per_backend.append(render_entry(e).as_str());
            i = i + 1;
        }
        proof {
            assert(es.take(n as int) =~= es);
        }
        let ready = self.ready();
        let mut s = String::from_str("{\"backends\":{\"healthy_required\":");
        s.append(render_decimal(healthy_required as u64).as_str());
        s.append(",\"healthy_total\":");
        s.append(render_decimal(healthy as u64).as_str());
        s.append(",\"required\":");
        s.append(render_decimal(required as u64).as_str());
        s.append(",\"total\":");
        s.append(render_decimal(n as u64).as_str());
        s.append("},\"degraded\":[");
        s.append(degraded.as_str());
        s.append("],\"per_backend\":{");
        s.append(per_backend.as_str());
        s.append("},\"status\":\"");
        s.append(
            if ready {
                "ready"
            } else {
                "not_ready"
            },
        );
        s.append("\"}");
        s
    }
}

impl Clone for HealthState {
    fn clone(&self) -> (r: Self)
        ensures
            r@ == self@,
    {
        proof {
            use_type_invariant(self);
        }
        let ghost es = self.entries_view();
        let n = self.entries.len();
        let mut out: Vec<HealthEntry> = Vec::new();
        let mut i: usize = 0;
        while i < n
            invariant
                n == es.len(),
                es == self.entries_view(),
                sorted_keys(es),
                i <= n,
                out@.len() == i,
                forall|k: int| 0 <= k < i ==> entry_view(#[trigger] out@[k]) == es[k],
            decreases n - i,
        {
            let e = &self.entries[i];
            assert(es[i as int] == entry_view(*e));
            out.push(HealthEntry { id: e.id.clone(), health: e.health.clone() });
            i = i + 1;
        }
        let r = HealthState { entries: out };
        assert(r.entries_view() =~= es);
        r
    }
}

/// Shared per-backend health tracker.
///
/// Startup registers the configured backends (unobserved, therefore not
/// ready); the background monitor records one observation per backend per
/// poll. Reads are snapshots, so the serving path never blocks on health
/// checks.
#[derive(Debug)]
pub struct HealthTracker {
    state: HealthState,
}

impl View for HealthTracker {
    type V = Map<Seq<char>, HealthView>;

    closed spec fn view(&self) -> Map<Seq<char>, HealthView> {
        self.state@
    }
}

/// State after registering the first `n` descriptors of a registry.
pub open spec fn register_all(
    m: Map<Seq<char>, HealthView>,
    reg: Seq<DescriptorView>,
    n: int,
) -> Map<Seq<char>, HealthView>
    decreases n,
{
    if n <= 0 {
        m
    } else {
        register_spec(register_all(m, reg, n - 1), reg[n - 1].id, reg[n - 1].required)
    }
}

/// State after observing the first `n` unavailable backends as unhealthy.
pub open spec fn observe_unavailable(
    m: Map<Seq<char>, HealthView>,
    us: Seq<UnavailableBackend>,
    n: int,
) -> Map<Seq<char>, HealthView>
    decreases n,
{
    if n <= 0 {
        m
    } else {
        observe_spec(observe_unavailable(m, us, n - 1), us[n - 1].id@, false, Some(us[n - 1].error@))
    }
}

/// State after observing the first `n` probed backends as healthy.
pub open spec fn observe_healthy(
    m: Map<Seq<char>, HealthView>,
    hs: Seq<ProbedBackend>,
    n: int,
) -> Map<Seq<char>, HealthView>
    decreases n,
{
    if n <= 0 {
        m
    } else {
        observe_spec(observe_healthy(m, hs, n - 1), hs[n - 1].descriptor@.id, true, None)
    }
}

/// The tracker state the startup probe yields: every configured backend
/// registered, then every unavailable backend observed unhealthy with its
/// probe error, then every probed backend observed healthy.
pub open spec fn startup_state(reg: Seq<DescriptorView>, report: ProbeReport) -> Map<
    Seq<char>,
    HealthView,
> {
    let registered = register_all(Map::empty(), reg, reg.len() as int);
    let degraded = observe_unavailable(
        registered,
        report.unavailable@,
        report.unavailable@.len() as int,
    );
    observe_healthy(degraded, report.healthy@, report.healthy@.len() as int)
}

impl HealthTracker {
    /// A tracker that has observed nothing yet; readiness is not earned.
    pub fn new() -> (r: Self)
        ensures
            r@ == Map::<Seq<char>, HealthView>::empty(),
    {
        HealthTracker { state: HealthState::empty() }
    }

    /// Initialize from the startup probe: probed backends are observed
    /// healthy, the rest unhealthy with their probe error.
    pub fn from_startup(registry: &BackendRegistry, report: &ProbeReport) -> (r: Self)
        ensures
            r@ == startup_state(registry@, *report),
    {
        let mut tracker = Self::new();
        let descriptors = registry.descriptors();
        let ghost reg = registry@;
        let n = descriptors.len();
        let mut i: usize = 0;
        while i < n
            invariant
                n == reg.len(),
                descriptors@.map_values(|d: crate::backend::descriptor::BackendDescriptor| d@)
                    == reg,
                i <= n,
                tracker@ == register_all(Map::empty(), reg, i as int),
            decreases n - i,
        {
            let d = &descriptors[i];
            assert(d@ == reg[i as int]);
            tracker.register(d.id(), d.required());
            i = i + 1;
        }
        let ghost registered = tracker@;
        let nu = report.unavailable.len();
        let mut j: usize = 0;
        while j < nu
            invariant
                nu == report.unavailable@.len(),
                j <= nu,
                tracker@ == observe_unavailable(registered, report.unavailable@, j as int),
            decreases nu - j,
        {
            let u = &report.unavailable[j];
            tracker.observe(u.id.as_str(), false, Some(u.error.clone()));
            j = j + 1;
        }
        let ghost degraded = tracker@;
        let nh = report.healthy.len();
        let mut k: usize = 0;
        while k < nh
            invariant
                nh == report.healthy@.len(),
                k <= nh,
                tracker@ == observe_healthy(degraded, report.healthy@, k as int),
            decreases nh - k,
        {
            let h = &report.healthy[k];
            tracker.observe(h.descriptor.id(), true, None);
            k = k + 1;
        }
        tracker
    }

    /// Register a backend as observed-nothing-yet. Idempotent.
    pub fn register(&mut self, id: &str, required: bool)
        ensures
            final(self)@ == register_spec(old(self)@, id@, required),
    {
        self.state.register(id, required);
    }

    /// Record one observation (see [`HealthState::observe`]).
    pub fn observe(&mut self, id: &str, healthy: bool, error: Option<String>)
        ensures
            final(self)@ == observe_spec(old(self)@, id@, healthy, opt_view(error)),
    {
        self.state.observe(id, healthy, error);
    }

    /// Current immutable snapshot.
    pub fn snapshot(&self) -> (r: HealthState)
        ensures
            r@ == self@,
    {
        self.state.clone()
    }

    /// Whether the current snapshot is ready.
    pub fn ready(&self) -> (r: bool)
        ensures
            r == ready_spec(self@),
    {
        self.state.ready()
    }
}

} // verus!
