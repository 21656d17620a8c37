//! The pure parts of configuration loading: format detection, `${VAR}`
//! resolution in backend URLs, keeping references when a migrated file is
//! written, and configuration-path precedence.
//!
//! Reading files, the process environment and the file system is left to
//! the caller, which hands the results in as plain values (an environment
//! lookup closure, whether a path exists).

use vstd::prelude::*;
use vstd::string::*;

use crate::config::legacy::{
    is_legacy_policy_error, legacy_policy_ok, legacy_url, validate_proxy_policy, LegacyBackend,
    LegacyConfig,
};
use crate::config::migrate::{
    is_migrate_error, law_legacy_policy_implies_migratable, migratable, public_migrated_from,
    to_public,
};
use crate::config::validate::{config_valid, is_validation_error, validate};
use crate::config::model::{BackendEntry, GatewayConfig};
use crate::config::toml_keys::{parse_toml_top_level_keys, toml_document_keys};
use crate::error::GatewayError;
use crate::text::{find_char, find_char_from, lemma_find_char_from, opt_view, str_eq};

verus! {

/// Environment variable that overrides the default config search path.
pub const CONFIG_ENV_VAR: &'static str = "LOMWAY_CONFIG";

/// Candidate paths checked, in order, when no explicit path is given.
pub const DEFAULT_CONFIG_CANDIDATES: [&'static str; 2] = ["config/proxy.local.toml", "gateway.toml"];

/// The top-level table key that identifies a legacy deployment file.
pub const LEGACY_MARKER_KEY: &'static str = "proxy";

/// Which on-disk configuration format a file uses.
#[derive(Debug, Clone, Copy, PartialEq, Eq)]
pub enum ConfigFormat {
    /// `schema_version = 1` public schema owned by this gateway.
    Public,
    /// Pre-generalization `mcp-proxy` configuration (migrated on load).
    Legacy,
}

/// The format a document with the given top-level keys has: legacy when
/// it has a `[proxy]` table, public otherwise.
pub open spec fn format_of_keys(keys: Seq<Seq<char>>) -> ConfigFormat {
    if keys.contains(LEGACY_MARKER_KEY@) {
        ConfigFormat::Legacy
    } else {
        ConfigFormat::Public
    }
}

/// Decide the configuration format from the top-level keys of a document.
pub fn format_from_top_level_keys(keys: &Vec<String>) -> (r: ConfigFormat)
    ensures
        r == format_of_keys(keys@.map_values(|k: String| k@)),
{
    let ghost ks = keys@.map_values(|k: String| k@);
    let n = keys.len();
    let mut i: usize = 0;
    while i < n
        invariant
            n == keys@.len(),
            ks == keys@.map_values(|k: String| k@),
            i <= n,
            forall|j: int| 0 <= j < i ==> keys@[j]@ != LEGACY_MARKER_KEY@,
        decreases n - i,
    {
        if str_eq(keys[i].as_str(), LEGACY_MARKER_KEY) {
            assert(ks[i as int] == LEGACY_MARKER_KEY@);
            return ConfigFormat::Legacy;
        }
        i = i + 1;
    }
    assert(!ks.contains(LEGACY_MARKER_KEY@));
    ConfigFormat::Public
}

/// A document is in the legacy format exactly when one of its top-level
/// keys, at any position, is `proxy`: a single `proxy` key makes it
/// legacy, and without one it is public.
pub proof fn law_legacy_exactly_when_some_key_is_proxy(keys: Seq<Seq<char>>)
    ensures
        (format_of_keys(keys) == ConfigFormat::Legacy) <==> (exists|i: int|
            0 <= i < keys.len() && #[trigger] keys[i] == "proxy"@),
        (format_of_keys(keys) == ConfigFormat::Public) <==> (forall|i: int|
            0 <= i < keys.len() ==> #[trigger] keys[i] != "proxy"@),
        format_of_keys(seq!["proxy"@]) == ConfigFormat::Legacy,
        format_of_keys(Seq::<Seq<char>>::empty()) == ConfigFormat::Public,
{
    reveal_strlit("proxy");
    assert(seq!["proxy"@][0] == "proxy"@);
}

/// The format does not depend on the order of the top-level keys, and
/// further keys never turn a legacy document into a public one.
pub proof fn law_format_ignores_key_order(keys: Seq<Seq<char>>, other: Seq<Seq<char>>, extra: Seq<char>)
    requires
        keys.to_multiset() == other.to_multiset(),
    ensures
        format_of_keys(keys) == format_of_keys(other),
        format_of_keys(keys) == ConfigFormat::Legacy ==> format_of_keys(keys.push(extra))
            == ConfigFormat::Legacy && format_of_keys(seq![extra] + keys) == ConfigFormat::Legacy,
{
    broadcast use vstd::seq_lib::to_multiset_contains;

    assert(keys.contains(LEGACY_MARKER_KEY@) <==> keys.to_multiset().count(LEGACY_MARKER_KEY@) > 0);
    assert(other.contains(LEGACY_MARKER_KEY@) <==> other.to_multiset().count(LEGACY_MARKER_KEY@)
        > 0);
    if keys.contains(LEGACY_MARKER_KEY@) {
        let i = choose|i: int| 0 <= i < keys.len() && keys[i] == LEGACY_MARKER_KEY@;
        assert(keys.push(extra)[i] == LEGACY_MARKER_KEY@);
        assert((seq![extra] + keys)[i + 1] == LEGACY_MARKER_KEY@);
    }
}

/// Detect the configuration format from its top-level TOML keys.
///
/// The legacy deployment schema is identified by its `[proxy]` table;
/// every other document is treated as the public schema. Text that is not
/// TOML is an error.
pub fn detect_config_format(text: &str) -> (r: Result<ConfigFormat, GatewayError>)
    ensures
        match toml_document_keys(text@) {
            Ok(keys) => r == Ok::<ConfigFormat, GatewayError>(format_of_keys(keys)),
            Err(detail) => r matches Err(GatewayError::InvalidToml { detail: d }) && d@ == detail,
        },
{
    match parse_toml_top_level_keys(text) {
        Ok(keys) => Ok(format_from_top_level_keys(&keys)),
        Err(detail) => Err(GatewayError::InvalidToml { detail }),
    }
}

// ---------------------------------------------------------------------
// `${NAME}` references
// ---------------------------------------------------------------------
/// The ways a `${...}` reference can be malformed.
#[derive(Debug, Clone, Copy, PartialEq, Eq)]
pub enum RefFault {
    /// `${` without a closing `}`.
    Unterminated,
    /// `${}`.
    Empty,
}

/// First position at or after `from` where `${` starts, or `s.len()`.
pub open spec fn ref_start(s: Seq<char>, from: int) -> int
    decreases s.len() - from,
{
    if from < 0 || from + 1 >= s.len() {
        s.len() as int
    } else if s[from] == '$' && s[from + 1] == '{' {
        from
    } else {
        ref_start(s, from + 1)
    }
}

pub proof fn lemma_ref_start(s: Seq<char>, from: int)
    requires
        0 <= from <= s.len(),
    ensures
        from <= ref_start(s, from) <= s.len(),
        ref_start(s, from) < s.len() ==> ref_start(s, from) + 1 < s.len() && s[ref_start(s, from)]
            == '$' && s[ref_start(s, from) + 1] == '{',
    decreases s.len() - from,
{
    if from + 1 < s.len() && !(s[from] == '$' && s[from + 1] == '{') {
        lemma_ref_start(s, from + 1);
    }
}

/// The names of the well-formed references from `pos` on, up to the first
/// malformed one.
pub open spec fn ref_names(s: Seq<char>, pos: int) -> Seq<Seq<char>>
    decreases s.len() - pos,
{
    if pos < 0 || pos > s.len() {
        Seq::empty()
    } else {
        let st = ref_start(s, pos);
        if st >= s.len() {
            Seq::empty()
        } else {
            let end = find_char_from(s, '}', st + 2);
            if end >= s.len() || end == st + 2 {
                Seq::empty()
            } else {
                proof {
                    lemma_ref_start(s, pos);
                    lemma_find_char_from(s, '}', st + 2);
                }
                seq![s.subrange(st + 2, end)] + ref_names(s, end + 1)
            }
        }
    }
}

/// The first malformed reference from `pos` on, if any.
pub open spec fn ref_fault(s: Seq<char>, pos: int) -> Option<RefFault>
    decreases s.len() - pos,
{
    if pos < 0 || pos > s.len() {
        None
    } else {
        let st = ref_start(s, pos);
        if st >= s.len() {
            None
        } else {
            let end = find_char_from(s, '}', st + 2);
            if end >= s.len() {
                Some(RefFault::Unterminated)
            } else if end == st + 2 {
                Some(RefFault::Empty)
            } else {
                proof {
                    lemma_ref_start(s, pos);
                    lemma_find_char_from(s, '}', st + 2);
                }
                ref_fault(s, end + 1)
            }
        }
    }
}

/// The text from `pos` on with its references replaced, in order, by
/// `vals`.
pub open spec fn render_refs(s: Seq<char>, pos: int, vals: Seq<Seq<char>>) -> Seq<char>
    decreases s.len() - pos,
{
    if pos < 0 || pos > s.len() {
        Seq::empty()
    } else {
        let st = ref_start(s, pos);
        if st >= s.len() {
            s.subrange(pos, s.len() as int)
        } else {
            let end = find_char_from(s, '}', st + 2);
            if end >= s.len() || end == st + 2 {
                Seq::empty()
            } else {
                proof {
                    lemma_ref_start(s, pos);
                    lemma_find_char_from(s, '}', st + 2);
                }
                s.subrange(pos, st) + vals[0] + render_refs(s, end + 1, vals.drop_first())
            }
        }
    }
}

/// `lookup` may answer `v` when asked for `name`.
pub open spec fn may_answer<F: Fn(&str) -> Option<String>>(
    lookup: F,
    name: Seq<char>,
    v: Option<Seq<char>>,
) -> bool {
    exists|n: &str, o: Option<String>|
        #![trigger call_ensures(lookup, (n,), o)]
        n@ == name && call_ensures(lookup, (n,), o) && opt_view(o) == v
}

/// `lookup` answers with a value whenever it is asked for `name`.
pub open spec fn always_answers<F: Fn(&str) -> Option<String>>(lookup: F, name: Seq<char>) -> bool {
    forall|n: &str, o: Option<String>|
        #![trigger call_ensures(lookup, (n,), o)]
        n@ == name && call_ensures(lookup, (n,), o) ==> o is Some
}

/// `lookup` may answer with a value when asked for `name`.
pub open spec fn answered<F: Fn(&str) -> Option<String>>(lookup: F, name: Seq<char>) -> bool {
    exists|n: &str, o: Option<String>|
        #![trigger call_ensures(lookup, (n,), o)]
        n@ == name && call_ensures(lookup, (n,), o) && o is Some
}

/// Each of the first `i` names may have been answered with a value.
pub open spec fn answered_before<F: Fn(&str) -> Option<String>>(
    lookup: F,
    names: Seq<Seq<char>>,
    i: int,
) -> bool {
    forall|j: int| 0 <= j < i ==> answered(lookup, #[trigger] names[j])
}

/// What expanding `s` reports, for whatever the lookup answered. The
/// references are taken left to right, each looked up in turn:
///
/// * success only for a text without malformed references, and then the
///   text with each reference replaced by an answer the lookup may give
///   for its name;
/// * an unresolved reference names the first well-formed reference for
///   which the lookup answered nothing: every earlier one was answered;
/// * a malformed reference is reported as such, for the whole input,
///   once every well-formed reference before it was answered.
pub open spec fn expansion_reported<F: Fn(&str) -> Option<String>>(
    lookup: F,
    s: Seq<char>,
    r: Result<String, GatewayError>,
) -> bool {
    let names = ref_names(s, 0);
    match r {
        Ok(out) => ref_fault(s, 0) is None && exists|vals: Seq<Seq<char>>|
            vals.len() == names.len() && (forall|i: int|
                0 <= i < names.len() ==> may_answer(lookup, #[trigger] names[i], Some(vals[i])))
                && out@ == render_refs(s, 0, vals),
        Err(GatewayError::UnresolvedEnvRef { name }) => exists|i: int|
            0 <= i < names.len() && names[i] == name@ && may_answer(lookup, names[i], None)
                && answered_before(lookup, names, i),
        Err(GatewayError::UnterminatedEnvRef { input }) => ref_fault(s, 0) == Some(RefFault::Unterminated)
            && input@ == s && answered_before(lookup, names, names.len() as int),
        Err(GatewayError::EmptyEnvRef { input }) => ref_fault(s, 0) == Some(RefFault::Empty) && input@
            == s && answered_before(lookup, names, names.len() as int),
        Err(_) => false,
    }
}

/// Position of the first `${` in `s` at or after `from` (`s.len()` if
/// none).
fn find_ref_start(s: &str, from: usize) -> (r: usize)
    requires
        from <= s@.len(),
    ensures
        r == ref_start(s@, from as int),
{
    let n = s.unicode_len();
    let mut i = from;
    while n >= 2 && i <= n - 2
        invariant
            n == s@.len(),
            from <= i <= n,
            ref_start(s@, from as int) == ref_start(s@, i as int),
        decreases n - i,
    {
        if s.get_char(i) == '$' && s.get_char(i + 1) == '{' {
            return i;
        }
        i = i + 1;
    }
    n
}

/// Expand every `${NAME}` reference in `input` with values from `lookup`.
///
/// References are processed left to right; a reference whose variable is
/// missing, an empty reference `${}`, or an unterminated `${` fails the
/// expansion. Text outside references is copied unchanged.
#[verifier::spinoff_prover]
pub fn expand_env_vars_with<F: Fn(&str) -> Option<String>>(input: &str, lookup: F) -> (r: Result<
    String,
    GatewayError,
>)
    requires
        forall|n: &str| #[trigger] lookup.requires((n,)),
    ensures
        expansion_reported(lookup, input@, r),
        ref_fault(input@, 0) is Some ==> r is Err,
        (ref_fault(input@, 0) is None && forall|i: int|
            0 <= i < ref_names(input@, 0).len() ==> always_answers(
                lookup,
                #[trigger] ref_names(input@, 0)[i],
            )) ==> r is Ok,
{
    let ghost s = input@;
    let n = input.unicode_len();
    let mut output = String::new();
    let mut pos: usize = 0;
    let ghost mut vals: Seq<Seq<char>> = Seq::empty();
    let ghost mut done: Seq<Seq<char>> = Seq::empty();
    loop
        invariant
            n == s.len(),
            s == input@,
            pos <= n,
            forall|nm: &str| #[trigger] lookup.requires((nm,)),
            ref_names(s, 0) == done + ref_names(s, pos as int),
            ref_fault(s, 0) == ref_fault(s, pos as int),
            vals.len() == done.len(),
            forall|i: int| 0 <= i < done.len() ==> may_answer(lookup, #[trigger] done[i], Some(vals[i])),
            forall|rv: Seq<Seq<char>>|
                #[trigger] render_refs(s, 0, vals + rv) == output@ + render_refs(s, pos as int, rv),
        decreases n - pos,
    {
        proof {
            lemma_ref_start(s, pos as int);
        }
        let start = find_ref_start(input, pos);
        if start >= n {
            output.append(input.substring_char(pos, n));
            proof {
                assert(ref_names(s, pos as int) =~= Seq::<Seq<char>>::empty());
                assert(done + Seq::<Seq<char>>::empty() =~= done);
                assert(vals + Seq::<Seq<char>>::empty() =~= vals);
                assert(render_refs(s, 0, vals + Seq::<Seq<char>>::empty()) == output@);
            }
            return Ok(output);
        }
        let after = start + 2;
        proof {
            lemma_find_char_from(s, '}', after as int);
        }
        let end = find_char(input, '}', after);
        proof {
            assert forall|j: int| 0 <= j < done.len() implies answered(lookup, #[trigger] done[j]) by {
                assert(may_answer(lookup, done[j], Some(vals[j])));
            }
        }
        if end >= n {
            proof {
                assert(ref_names(s, pos as int) =~= Seq::<Seq<char>>::empty());
                assert(ref_names(s, 0) =~= done);
            }
            return Err(GatewayError::UnterminatedEnvRef { input: String::from_str(input) });
        }
        if end == after {
            proof {
                assert(ref_names(s, pos as int) =~= Seq::<Seq<char>>::empty());
                assert(ref_names(s, 0) =~= done);
            }
            return Err(GatewayError::EmptyEnvRef { input: String::from_str(input) });
        }
        let name = input.substring_char(after, end);
        let value = lookup(name);
        match value {
            Some(v) => {
                let ghost old_out = output@;
                output.append(input.substring_char(pos, start));
                output.append(v.as_str());
                proof {
                    assert(may_answer(lookup, name@, Some(v@))) by {
                        assert(call_ensures(lookup, (name,), value));
                    }
                    let nv = vals.push(v@);
                    let nd = done.push(name@);
                    assert(ref_names(s, pos as int) == seq![name@] + ref_names(s, end + 1));
                    assert(ref_names(s, 0) =~= nd + ref_names(s, end + 1));
                    assert forall|rv: Seq<Seq<char>>|
                        #[trigger] render_refs(s, 0, nv + rv) == output@ + render_refs(
                            s,
                            end + 1,
                            rv,
                        ) by {
                        let w = seq![v@] + rv;
                        assert(nv + rv =~= vals + w);
                        assert(w.drop_first() =~= rv);
                        assert(render_refs(s, pos as int, w) == s.subrange(pos as int, start as int)
                            + v@ + render_refs(s, end + 1, rv));
                        assert(render_refs(s, 0, vals + w) == old_out + render_refs(
                            s,
                            pos as int,
                            w,
                        ));
                        assert(output@ =~= old_out + s.subrange(pos as int, start as int) + v@);
                    }
                    assert forall|i: int| 0 <= i < nd.len() implies may_answer(
                        lookup,
                        #[trigger] nd[i],
                        Some(nv[i]),
                    ) by {
                        if i < done.len() {
                            assert(nd[i] == done[i] && nv[i] == vals[i]);
                        }
                    }
                    vals = nv;
                    done = nd;
                }
                pos = end + 1;
            },
            None => {
                proof {
                    assert(call_ensures(lookup, (name,), value));
                    assert(ref_names(s, pos as int) == seq![name@] + ref_names(s, end + 1));
                    assert(ref_names(s, 0)[done.len() as int] == name@);
                    assert(may_answer(lookup, name@, None));
                    assert forall|j: int| 0 <= j < done.len() implies answered(
                        lookup,
                        #[trigger] ref_names(s, 0)[j],
                    ) by {
                        assert(ref_names(s, 0)[j] == done[j]);
                    }
                    assert(!always_answers(lookup, ref_names(s, 0)[done.len() as int]));
                }
                return Err(GatewayError::UnresolvedEnvRef { name: String::from_str(name) });
            },
        }
    }
}

/// Whether `s` contains a `${` reference opener.
pub fn contains_ref(s: &str) -> (r: bool)
    ensures
        r == (ref_start(s@, 0) < s@.len()),
{
    find_ref_start(s, 0) < s.unicode_len()
}

/// Resolve `${VAR}` references in every backend URL of a public
/// configuration with `lookup`; URLs without references are untouched.
/// The first failing URL fails the whole resolution.
#[verifier::spinoff_prover]
pub fn resolve_env_refs_with<F: Fn(&str) -> Option<String>>(
    config: &mut GatewayConfig,
    lookup: F,
) -> (r: Result<(), GatewayError>)
    requires
        forall|n: &str| #[trigger] lookup.requires((n,)),
    ensures
        final(config).schema_version == old(config).schema_version,
        final(config).server == old(config).server,
        final(config).policy == old(config).policy,
        final(config).observability == old(config).observability,
        final(config).backends@.len() == old(config).backends@.len(),
        forall|i: int|
            0 <= i < old(config).backends@.len() ==> {
                let a = #[trigger] old(config).backends@[i];
                let b = final(config).backends@[i];
                &&& b.id == a.id
                &&& b.prefix == a.prefix
                &&& b.required == a.required
                &&& b.timeout_seconds == a.timeout_seconds
            },
        r is Ok ==> forall|i: int|
            0 <= i < old(config).backends@.len() ==> {
                let a = #[trigger] old(config).backends@[i];
                let b = final(config).backends@[i];
                if ref_start(a.url@, 0) < a.url@.len() {
                    expansion_reported(lookup, a.url@, Ok::<String, GatewayError>(b.url))
                } else {
                    b.url == a.url
                }
            },
        r matches Err(e) ==> exists|i: int|
            0 <= i < old(config).backends@.len() && ref_start(
                (#[trigger] old(config).backends@[i]).url@,
                0,
            ) < old(config).backends@[i].url@.len() && expansion_reported(
                lookup,
                old(config).backends@[i].url@,
                Err::<String, GatewayError>(e),
            ),
{
    let ghost original = *config;
    let n = config.backends.len();
    let mut i: usize = 0;
    while i < n
        invariant
            original == *old(config),
            n == original.backends@.len(),
            n == config.backends@.len(),
            i <= n,
            forall|m: &str| #[trigger] lookup.requires((m,)),
            config.schema_version == original.schema_version,
            config.server == original.server,
            config.policy == original.policy,
            config.observability == original.observability,
            forall|k: int|
                0 <= k < n ==> {
                    let a = #[trigger] original.backends@[k];
                    let b = config.backends@[k];
                    &&& b.id == a.id
                    &&& b.prefix == a.prefix
                    &&& b.required == a.required
                    &&& b.timeout_seconds == a.timeout_seconds
                },
            forall|k: int|
                i <= k < n ==> #[trigger] config.backends@[k] == original.backends@[k],
            forall|k: int|
                0 <= k < i ==> {
                    let a = #[trigger] original.backends@[k];
                    let b = config.backends@[k];
                    if ref_start(a.url@, 0) < a.url@.len() {
                        expansion_reported(lookup, a.url@, Ok::<String, GatewayError>(b.url))
                    } else {
                        b.url == a.url
                    }
                },
        decreases n - i,
    {
        if contains_ref(config.backends[i].url.as_str()) {
            let expanded = expand_env_vars_with(config.backends[i].url.as_str(), &lookup);
            match expanded {
                Ok(url) => {
                    let ghost before = config.backends@;
                    let entry = BackendEntry {
                        id: config.backends[i].id.clone(),
                        prefix: config.backends[i].prefix.clone(),
                        url,
                        required: config.backends[i].required,
                        timeout_seconds: config.backends[i].timeout_seconds,
                    };
                    config.backends.set(i, entry);
                    assert(forall|k: int| 0 <= k < n && k != i ==> config.backends@[k] == before[k]);
                },
                Err(e) => {
                    proof {
                        let a = original.backends@[i as int];
                        assert(config.backends@[i as int] == a);
                        assert(ref_start(a.url@, 0) < a.url@.len());
                        assert(expansion_reported(lookup, a.url@, Err::<String, GatewayError>(e)));
                    }
                    return Err(e);
                },
            }
        }
        i = i + 1;
    }
    Ok(())
}

/// The URL of `b` holds a reference, and expanding it reports `e`.
pub open spec fn url_expansion_failed<F: Fn(&str) -> Option<String>>(
    lookup: F,
    b: LegacyBackend,
    e: GatewayError,
) -> bool {
    &&& b.url matches Some(u)
    &&& ref_start(u@, 0) < u@.len()
    &&& expansion_reported(lookup, u@, Err::<String, GatewayError>(e))
}

/// `b` is `a` with at most its URL changed.
pub open spec fn same_but_url(a: LegacyBackend, b: LegacyBackend) -> bool {
    b == LegacyBackend { url: b.url, ..a }
}

/// Resolve `${VAR}` references in the backend URLs of a legacy
/// configuration with `lookup`. URLs without references (and absent URLs)
/// are untouched; everything but backend URLs is untouched. The first
/// failing URL fails the whole resolution.
#[verifier::spinoff_prover]
pub fn resolve_legacy_env_with<F: Fn(&str) -> Option<String>>(
    config: &mut LegacyConfig,
    lookup: F,
) -> (r: Result<(), GatewayError>)
    requires
        forall|n: &str| #[trigger] lookup.requires((n,)),
    ensures
        final(config).backends@.len() == old(config).backends@.len(),
        *final(config) == (LegacyConfig { backends: final(config).backends, ..*old(config) }),
        forall|i: int|
            0 <= i < old(config).backends@.len() ==> same_but_url(
                #[trigger] old(config).backends@[i],
                final(config).backends@[i],
            ),
        r is Ok ==> forall|i: int|
            0 <= i < old(config).backends@.len() ==> {
                let a = #[trigger] old(config).backends@[i];
                let b = final(config).backends@[i];
                match a.url {
                    Some(u) => if ref_start(u@, 0) < u@.len() {
                        b.url matches Some(v) && expansion_reported(
                            lookup,
                            u@,
                            Ok::<String, GatewayError>(v),
                        )
                    } else {
                        b.url == a.url
                    },
                    None => b.url is None,
                }
            },
        r matches Err(e) ==> exists|i: int|
            0 <= i < old(config).backends@.len() && url_expansion_failed(
                lookup,
                #[trigger] old(config).backends@[i],
                e,
            ),
{
    let ghost original = *config;
    let n = config.backends.len();
    let mut i: usize = 0;
    while i < n
        invariant
            original == *old(config),
            n == original.backends@.len(),
            n == config.backends@.len(),
            i <= n,
            forall|m: &str| #[trigger] lookup.requires((m,)),
            *config == (LegacyConfig { backends: config.backends, ..original }),
            forall|k: int|
                0 <= k < n ==> same_but_url(#[trigger] original.backends@[k], config.backends@[k]),
            forall|k: int|
                i <= k < n ==> #[trigger] config.backends@[k] == original.backends@[k],
            forall|k: int|
                0 <= k < i ==> {
                    let a = #[trigger] original.backends@[k];
                    let b = config.backends@[k];
                    match a.url {
                        Some(u) => if ref_start(u@, 0) < u@.len() {
                            b.url matches Some(v) && expansion_reported(
                                lookup,
                                u@,
                                Ok::<String, GatewayError>(v),
                            )
                        } else {
                            b.url == a.url
                        },
                        None => b.url is None,
                    }
                },
        decreases n - i,
    {
        let expanded = match &config.backends[i].url {
            Some(u) => if contains_ref(u.as_str()) {
                Some(expand_env_vars_with(u.as_str(), &lookup))
            } else {
                None
            },
            None => None,
        };
        match expanded {
            Some(Ok(url)) => {
                let ghost before = config.backends@;
                config.backends[i].url = Some(url);
                assert(forall|k: int| 0 <= k < n && k != i ==> config.backends@[k] == before[k]);
            },
            Some(Err(e)) => {
                proof {
                    let a = original.backends@[i as int];
                    assert(config.backends@[i as int] == a);
                    assert(url_expansion_failed(lookup, a, e));
                }
                return Err(e);
            },
            None => {},
        }
        i = i + 1;
    }
    Ok(())
}

/// Expanding `template` may give a URL other than `b`'s, and `e` is the
/// mismatch error that names backend `b`.
pub open spec fn template_mismatch<F: Fn(&str) -> Option<String>>(
    lookup: F,
    template: Seq<char>,
    b: BackendEntry,
    e: GatewayError,
) -> bool {
    &&& e matches GatewayError::TemplateMismatch { id } && id@ == b.id@
    &&& exists|out: String|
        #![trigger expansion_reported(lookup, template, Ok::<String, GatewayError>(out))]
        expansion_reported(lookup, template, Ok::<String, GatewayError>(out)) && out@ != b.url@
}

/// A mismatch stated for a borrowed lookup holds of the lookup itself.
proof fn lemma_template_mismatch_by_ref<F: Fn(&str) -> Option<String>>(
    lookup: F,
    template: Seq<char>,
    b: BackendEntry,
    e: GatewayError,
)
    requires
        template_mismatch(&lookup, template, b, e),
    ensures
        template_mismatch(lookup, template, b, e),
{
    let out = choose|out: String|
        expansion_reported(&lookup, template, Ok::<String, GatewayError>(out)) && out@ != b.url@;
    assert(expansion_reported(lookup, template, Ok::<String, GatewayError>(out)));
}

/// Restore `${VAR}` references in the backend URLs of a migrated public
/// configuration, so a written file keeps the references instead of
/// resolved machine values.
///
/// `templates[i]` is the URL of backend `i` as written in the source file
/// (pairs beyond the shorter list are left alone). A template without a
/// reference leaves the URL untouched. A template with references must
/// expand to exactly the URL the configuration holds (so the written file
/// reloads identically), and then replaces it.
#[verifier::spinoff_prover]
pub fn restore_env_templates<F: Fn(&str) -> Option<String>>(
    public: &mut GatewayConfig,
    templates: &Vec<String>,
    lookup: F,
) -> (r: Result<(), GatewayError>)
    requires
        forall|n: &str| #[trigger] lookup.requires((n,)),
    ensures
        final(public).schema_version == old(public).schema_version,
        final(public).server == old(public).server,
        final(public).policy == old(public).policy,
        final(public).observability == old(public).observability,
        final(public).backends@.len() == old(public).backends@.len(),
        forall|i: int|
            0 <= i < old(public).backends@.len() ==> {
                let a = #[trigger] old(public).backends@[i];
                let b = final(public).backends@[i];
                &&& b.id == a.id
                &&& b.prefix == a.prefix
                &&& b.required == a.required
                &&& b.timeout_seconds == a.timeout_seconds
            },
        r is Ok ==> forall|i: int|
            0 <= i < old(public).backends@.len() ==> {
                let a = #[trigger] old(public).backends@[i];
                let b = final(public).backends@[i];
                if i < templates@.len() && ref_start(templates@[i]@, 0) < templates@[i]@.len() {
                    &&& expansion_reported(lookup, templates@[i]@, Ok::<String, GatewayError>(a.url))
                    &&& b.url@ == templates@[i]@
                } else {
                    b.url == a.url
                }
            },
        r matches Err(e) ==> exists|i: int|
            0 <= i < old(public).backends@.len() && i < templates@.len() && ref_start(
                (#[trigger] templates@[i])@,
                0,
            ) < templates@[i]@.len() && (expansion_reported(
                lookup,
                templates@[i]@,
                Err::<String, GatewayError>(e),
            ) || template_mismatch(lookup, templates@[i]@, old(public).backends@[i], e)),
{
    let ghost original = *public;
    let n = public.backends.len();
    let m = templates.len();
    let mut i: usize = 0;
    while i < n && i < m
        invariant
            original == *old(public),
            n == original.backends@.len(),
            n == public.backends@.len(),
            m == templates@.len(),
            i <= n,
            forall|q: &str| #[trigger] lookup.requires((q,)),
            public.schema_version == original.schema_version,
            public.server == original.server,
            public.policy == original.policy,
            public.observability == original.observability,
            forall|k: int|
                0 <= k < n ==> {
                    let a = #[trigger] original.backends@[k];
                    let b = public.backends@[k];
                    &&& b.id == a.id
                    &&& b.prefix == a.prefix
                    &&& b.required == a.required
                    &&& b.timeout_seconds == a.timeout_seconds
                },
            forall|k: int| i <= k < n ==> #[trigger] public.backends@[k] == original.backends@[k],
            forall|k: int|
                0 <= k < i ==> {
                    let a = #[trigger] original.backends@[k];
                    let b = public.backends@[k];
                    if k < m && ref_start(templates@[k]@, 0) < templates@[k]@.len() {
                        &&& expansion_reported(
                            lookup,
                            templates@[k]@,
                            Ok::<String, GatewayError>(a.url),
                        )
                        &&& b.url@ == templates@[k]@
                    } else {
                        b.url == a.url
                    }
                },
        decreases n - i,
    {
        let template = &templates[i];
        if contains_ref(template.as_str()) {
            let expanded = expand_env_vars_with(template.as_str(), &lookup);
            match expanded {
                Ok(resolved) => {
                    if !str_eq(resolved.as_str(), public.backends[i].url.as_str()) {
                        let e = GatewayError::TemplateMismatch { id: public.backends[i].id.clone() };
                        proof {
                            let t = templates@[i as int];
                            assert(t == *template);
                            assert(ref_start(t@, 0) < t@.len());
                            assert(public.backends@[i as int] == original.backends@[i as int]);
                            assert(expansion_reported(lookup, t@, Ok::<String, GatewayError>(resolved)));
                            assert(template_mismatch(lookup, t@, original.backends@[i as int], e));
                        }
                        return Err(e);
                    }
                    let ghost before = public.backends@;
                    assert(resolved@ == original.backends@[i as int].url@);
                    proof {
                        assert(expansion_reported(
                            lookup,
                            template@,
                            Ok::<String, GatewayError>(original.backends@[i as int].url),
                        ));
                    }
                    public.backends[i].url = template.clone();
                    proof {
                        assert(forall|k: int|
                            0 <= k < n && k != i ==> public.backends@[k] == before[k]);
                        assert(public.backends@[i as int].url@ == templates@[i as int]@);
                        assert(public.backends@[i as int].id == original.backends@[i as int].id);
                        assert forall|k: int| 0 <= k < i + 1 implies {
                            let a = #[trigger] original.backends@[k];
                            let b = public.backends@[k];
                            if k < m && ref_start(templates@[k]@, 0) < templates@[k]@.len() {
                                &&& expansion_reported(
                                    lookup,
                                    templates@[k]@,
                                    Ok::<String, GatewayError>(a.url),
                                )
                                &&& b.url@ == templates@[k]@
                            } else {
                                b.url == a.url
                            }
                        } by {
                            if k < i {
                                assert(public.backends@[k] == before[k]);
                            }
                        }
                    }
                },
                Err(e) => {
                    proof {
                        let t = templates@[i as int];
                        assert(t == *template);
                        assert(ref_start(t@, 0) < t@.len());
                        assert(expansion_reported(lookup, t@, Err::<String, GatewayError>(e)));
                    }
                    return Err(e);
                },
            }
        }
        i = i + 1;
    }
    Ok(())
}

/// Which configuration file to use.
#[derive(Debug, Clone, Copy, PartialEq, Eq)]
pub enum ConfigPathChoice {
    /// The path given with `--config`.
    Explicit,
    /// The path named by the `LOMWAY_CONFIG` environment variable.
    Environment,
    /// The default candidate at this index of [`DEFAULT_CONFIG_CANDIDATES`].
    Candidate(usize),
}

/// Configuration-path precedence, highest first:
///
/// 1. an explicit `--config <path>`;
/// 2. the `LOMWAY_CONFIG` environment variable, which must name an
///    existing file;
/// 3. the first existing default candidate, `config/proxy.local.toml`,
///    then `gateway.toml`.
///
/// The caller reports whether the environment path and each candidate
/// exist; nothing else is consulted.
pub fn choose_config_path(
    explicit_given: bool,
    env_value: Option<&str>,
    env_path_exists: bool,
    candidate_exists: &[bool],
) -> (r: Result<ConfigPathChoice, GatewayError>)
    ensures
        explicit_given ==> r == Ok::<ConfigPathChoice, GatewayError>(ConfigPathChoice::Explicit),
        !explicit_given && env_value is Some ==> (if env_path_exists {
            r == Ok::<ConfigPathChoice, GatewayError>(ConfigPathChoice::Environment)
        } else {
            r matches Err(GatewayError::ConfigEnvPathMissing { path }) && path@
                == env_value->0@
        }),
        !explicit_given && env_value is None ==> match r {
            Ok(ConfigPathChoice::Candidate(i)) => i < candidate_exists@.len()
                && i < DEFAULT_CONFIG_CANDIDATES@.len() && candidate_exists@[i as int]
                && forall|j: int| 0 <= j < i ==> !#[trigger] candidate_exists@[j],
            Err(e) => e == GatewayError::NoConfigFound && forall|j: int|
                0 <= j < candidate_exists@.len() && j < DEFAULT_CONFIG_CANDIDATES@.len()
                    ==> !#[trigger] candidate_exists@[j],
            _ => false,
        },
{
    if explicit_given {
        return Ok(ConfigPathChoice::Explicit);
    }
    match env_value {
        Some(v) => {
            if env_path_exists {
                return Ok(ConfigPathChoice::Environment);
            }
            return Err(GatewayError::ConfigEnvPathMissing { path: String::from_str(v) });
        },
        None => {},
    }
    let n = candidate_exists.len();
    let k = DEFAULT_CONFIG_CANDIDATES.len();
    let mut i: usize = 0;
    while i < n && i < k
        invariant
            n == candidate_exists@.len(),
            k == DEFAULT_CONFIG_CANDIDATES@.len(),
            !explicit_given,
            env_value is None,
            i <= n,
            forall|j: int| 0 <= j < i ==> !#[trigger] candidate_exists@[j],
        decreases n - i,
    {
        if candidate_exists[i] {
            return Ok(ConfigPathChoice::Candidate(i));
        }
        i = i + 1;
    }
    Err(GatewayError::NoConfigFound)
}


// ---------------------------------------------------------------------
// Loading a parsed document
// ---------------------------------------------------------------------
/// A configuration document as parsed in its on-disk format.
#[derive(Debug, Clone)]
pub enum ParsedConfig {
    /// A `schema_version = 1` public document.
    Public(GatewayConfig),
    /// A legacy `[proxy]` deployment document.
    Legacy(LegacyConfig),
}

/// `after` is `before` with every backend URL that holds a reference
/// replaced by an expansion `lookup` may give; nothing else differs.
pub open spec fn public_refs_resolved<F: Fn(&str) -> Option<String>>(
    lookup: F,
    before: GatewayConfig,
    after: GatewayConfig,
) -> bool {
    &&& after.schema_version == before.schema_version
    &&& after.server == before.server
    &&& after.policy == before.policy
    &&& after.observability == before.observability
    &&& after.backends@.len() == before.backends@.len()
    &&& forall|i: int|
        0 <= i < before.backends@.len() ==> {
            let a = #[trigger] before.backends@[i];
            let b = after.backends@[i];
            &&& b.id == a.id
            &&& b.prefix == a.prefix
            &&& b.required == a.required
            &&& b.timeout_seconds == a.timeout_seconds
            &&& if ref_start(a.url@, 0) < a.url@.len() {
                expansion_reported(lookup, a.url@, Ok::<String, GatewayError>(b.url))
            } else {
                b.url == a.url
            }
        }
}

/// Resolving the backend URLs of `c` may fail with `e`.
pub open spec fn public_refs_failed<F: Fn(&str) -> Option<String>>(
    lookup: F,
    c: GatewayConfig,
    e: GatewayError,
) -> bool {
    exists|i: int|
        0 <= i < c.backends@.len() && ref_start((#[trigger] c.backends@[i]).url@, 0)
            < c.backends@[i].url@.len() && expansion_reported(
            lookup,
            c.backends@[i].url@,
            Err::<String, GatewayError>(e),
        )
}

/// `after` is `before` with every backend URL that holds a reference
/// replaced by an expansion `lookup` may give; nothing else differs.
pub open spec fn legacy_refs_resolved<F: Fn(&str) -> Option<String>>(
    lookup: F,
    before: LegacyConfig,
    after: LegacyConfig,
) -> bool {
    &&& after == (LegacyConfig { backends: after.backends, ..before })
    &&& after.backends@.len() == before.backends@.len()
    &&& forall|i: int|
        0 <= i < before.backends@.len() ==> {
            let a = #[trigger] before.backends@[i];
            let b = after.backends@[i];
            &&& same_but_url(a, b)
            &&& match a.url {
                Some(u) => if ref_start(u@, 0) < u@.len() {
                    b.url matches Some(v) && expansion_reported(
                        lookup,
                        u@,
                        Ok::<String, GatewayError>(v),
                    )
                } else {
                    b.url == a.url
                },
                None => b.url is None,
            }
        }
}

/// Resolving the backend URLs of `c` may fail with `e`.
pub open spec fn legacy_refs_failed<F: Fn(&str) -> Option<String>>(
    lookup: F,
    c: LegacyConfig,
    e: GatewayError,
) -> bool {
    exists|i: int|
        0 <= i < c.backends@.len() && url_expansion_failed(lookup, #[trigger] c.backends@[i], e)
}

/// What loading `parsed` with `lookup` reports, for whatever the lookup
/// answered.
///
/// * A public document has its backend URL references resolved and is
///   then validated; it loads as itself, resolved.
/// * A legacy document has its backend URL references resolved, must pass
///   the loopback-only deployment policy, and loads migrated to the public
///   schema.
/// * A failure is the first failing step's error.
pub open spec fn load_reported<F: Fn(&str) -> Option<String>>(
    lookup: F,
    parsed: ParsedConfig,
    r: Result<(ConfigFormat, GatewayConfig), GatewayError>,
) -> bool {
    match parsed {
        ParsedConfig::Public(c) => match r {
            Ok((format, out)) => format == ConfigFormat::Public && public_refs_resolved(lookup, c, out)
                && config_valid(out),
            Err(e) => public_refs_failed(lookup, c, e) || exists|mid: GatewayConfig|
                public_refs_resolved(lookup, c, mid) && !config_valid(mid) && is_validation_error(
                    mid,
                    e,
                ),
        },
        ParsedConfig::Legacy(l) => match r {
            Ok((format, out)) => format == ConfigFormat::Legacy && exists|mid: LegacyConfig|
                legacy_refs_resolved(lookup, l, mid) && legacy_policy_ok(mid, false)
                    && public_migrated_from(out, mid),
            Err(e) => legacy_refs_failed(lookup, l, e) || exists|mid: LegacyConfig|
                legacy_refs_resolved(lookup, l, mid) && !legacy_policy_ok(mid, false)
                    && is_legacy_policy_error(mid, false, e),
        },
    }
}

/// Load a parsed configuration document: resolve `${VAR}` references in
/// backend URLs with `lookup`, enforce the policy of its format, and
/// report the format together with the public configuration it yields.
#[verifier::spinoff_prover]
pub fn load_gateway_config_with_format<F: Fn(&str) -> Option<String>>(
    parsed: ParsedConfig,
    lookup: F,
) -> (r: Result<(ConfigFormat, GatewayConfig), GatewayError>)
    requires
        forall|n: &str| #[trigger] lookup.requires((n,)),
    ensures
        load_reported(lookup, parsed, r),
{
    match parsed {
        ParsedConfig::Public(c) => {
            let ghost before = c;
            let mut config = c;
            match resolve_env_refs_with(&mut config, &lookup) {
                Err(e) => Err(e),
                Ok(()) => {
                    assert(public_refs_resolved(lookup, before, config));
                    match validate(&config) {
                        Err(e) => Err(e),
                        Ok(()) => Ok((ConfigFormat::Public, config)),
                    }
                },
            }
        },
        ParsedConfig::Legacy(l) => {
            let ghost before = l;
            let mut legacy = l;
            match resolve_legacy_env_with(&mut legacy, &lookup) {
                Err(e) => Err(e),
                Ok(()) => {
                    assert(legacy_refs_resolved(lookup, before, legacy));
                    match validate_proxy_policy(&legacy) {
                        Err(e) => Err(e),
                        Ok(()) => {
                            proof {
                                law_legacy_policy_implies_migratable(legacy);
                            }
                            match to_public(&legacy) {
                                Ok(public) => Ok((ConfigFormat::Legacy, public)),
                                Err(e) => Err(e),
                            }
                        },
                    }
                },
            }
        },
    }
}

/// Load a parsed configuration document (see
/// [`load_gateway_config_with_format`]) and keep only the public
/// configuration.
pub fn load_gateway_config<F: Fn(&str) -> Option<String>>(parsed: ParsedConfig, lookup: F) -> (r:
    Result<GatewayConfig, GatewayError>)
    requires
        forall|n: &str| #[trigger] lookup.requires((n,)),
    ensures
        exists|full: Result<(ConfigFormat, GatewayConfig), GatewayError>|
            load_reported(lookup, parsed, full) && r == match full {
                Ok((_, c)) => Ok::<GatewayConfig, GatewayError>(c),
                Err(e) => Err::<GatewayConfig, GatewayError>(e),
            },
{
    let full = load_gateway_config_with_format(parsed, lookup);
    match full {
        Ok((_, c)) => Ok(c),
        Err(e) => Err(e),
    }
}


/// The refusals that come before the file to migrate is read: a
/// migration never writes over its own input (`same_path`) and never over
/// an existing file (`output_exists`); `output` is the output path as
/// shown in the error.
pub fn check_migration_target(same_path: bool, output_exists: bool, output: &str) -> (r: Result<
    (),
    GatewayError,
>)
    ensures
        same_path ==> (r matches Err(GatewayError::MigrateInPlace { output: o }) && o@ == output@),
        !same_path && output_exists ==> (r matches Err(GatewayError::MigrateOutputExists { output: o })
            && o@ == output@),
        !same_path && !output_exists ==> r is Ok,
{
    if same_path {
        return Err(GatewayError::MigrateInPlace { output: String::from_str(output) });
    }
    if output_exists {
        return Err(GatewayError::MigrateOutputExists { output: String::from_str(output) });
    }
    Ok(())
}

/// Only a legacy document is migrated; `input` is the input path as shown
/// in the error.
pub fn check_migration_source(input: &str, format: ConfigFormat) -> (r: Result<(), GatewayError>)
    ensures
        format == ConfigFormat::Legacy ==> r is Ok,
        format == ConfigFormat::Public ==> (r matches Err(
            GatewayError::MigrateAlreadyPublic { input: i },
        ) && i@ == input@),
{
    match format {
        ConfigFormat::Legacy => Ok(()),
        ConfigFormat::Public => Err(GatewayError::MigrateAlreadyPublic { input: String::from_str(input) }),
    }
}

/// `out` is `p` with each backend URL replaced by the URL as written in
/// the legacy document `l` (references kept verbatim).
pub open spec fn written_back(out: GatewayConfig, p: GatewayConfig, l: LegacyConfig) -> bool {
    &&& out.schema_version == p.schema_version
    &&& out.server == p.server
    &&& out.policy == p.policy
    &&& out.observability == p.observability
    &&& out.backends@.len() == p.backends@.len()
    &&& out.backends@.len() == l.backends@.len()
    &&& forall|i: int|
        0 <= i < p.backends@.len() ==> {
            let a = #[trigger] p.backends@[i];
            let b = out.backends@[i];
            &&& b.id == a.id
            &&& b.prefix == a.prefix
            &&& b.required == a.required
            &&& b.timeout_seconds == a.timeout_seconds
            &&& b.url@ == legacy_url(l.backends@[i])
        }
}

/// A second expansion of backend `i`'s written URL, made to check that the
/// written file reloads identically to the validated configuration `p`,
/// failed with `e` or gave a URL other than the one `p` holds.
pub open spec fn rewrite_failed<F: Fn(&str) -> Option<String>>(
    lookup: F,
    l: LegacyConfig,
    p: GatewayConfig,
    i: int,
    e: GatewayError,
) -> bool {
    let u = legacy_url(l.backends@[i]);
    &&& 0 <= i < l.backends@.len()
    &&& i < p.backends@.len()
    &&& p.backends@[i].id@ == l.backends@[i].name@
    &&& ref_start(u, 0) < u.len()
    &&& (expansion_reported(lookup, u, Err::<String, GatewayError>(e)) || template_mismatch(
        lookup,
        u,
        p.backends@[i],
        e,
    ))
}

/// What migrating the legacy document `l` with `lookup` reports, for
/// whatever the lookup answered: its references are resolved, the
/// resolved form must pass the loopback-only deployment policy and, once
/// migrated, the public validation; the result keeps every backend URL as
/// written (references verbatim), each of which must expand again to the
/// URL that was validated, so the result resolves back to the validated
/// configuration when it is loaded.
pub open spec fn migration_reported<F: Fn(&str) -> Option<String>>(
    lookup: F,
    l: LegacyConfig,
    r: Result<GatewayConfig, GatewayError>,
) -> bool {
    match r {
        Ok(out) => exists|mid: LegacyConfig, p: GatewayConfig|
            legacy_refs_resolved(lookup, l, mid) && legacy_policy_ok(mid, false)
                && public_migrated_from(p, mid) && config_valid(p) && written_back(out, p, l)
                && public_refs_resolved(lookup, out, p),
        Err(e) => legacy_refs_failed(lookup, l, e) || (exists|mid: LegacyConfig|
            legacy_refs_resolved(lookup, l, mid) && !legacy_policy_ok(mid, false)
                && is_legacy_policy_error(mid, false, e)) || (exists|
            mid: LegacyConfig,
            p: GatewayConfig,
        |
            legacy_refs_resolved(lookup, l, mid) && legacy_policy_ok(mid, false)
                && public_migrated_from(p, mid) && !config_valid(p) && is_validation_error(p, e))
            || (exists|mid: LegacyConfig, p: GatewayConfig, i: int|
            legacy_refs_resolved(lookup, l, mid) && legacy_policy_ok(mid, false)
                && public_migrated_from(p, mid) && config_valid(p) && rewrite_failed(
                lookup,
                l,
                p,
                i,
                e,
            )),
    }
}

/// Migrate a legacy document to the public schema for writing: resolve,
/// check and migrate it as loading does, validate the result, then put the
/// backend URLs back as written so `${VAR}` references are preserved
/// instead of baking resolved machine values into the output.
#[verifier::spinoff_prover]
pub fn migrate_legacy_config<F: Fn(&str) -> Option<String>>(legacy: LegacyConfig, lookup: F) -> (r:
    Result<GatewayConfig, GatewayError>)
    requires
        forall|n: &str| #[trigger] lookup.requires((n,)),
    ensures
        migration_reported(lookup, legacy, r),
{
    let ghost l = legacy;
    let n = legacy.backends.len();
    let mut templates: Vec<String> = Vec::new();
    let mut i: usize = 0;
    while i < n
        invariant
            n == l.backends@.len(),
            legacy == l,
            i <= n,
            templates@.len() == i,
            forall|k: int| 0 <= k < i ==> #[trigger] templates@[k]@ == legacy_url(l.backends@[k]),
        decreases n - i,
    {
        let written = match &legacy.backends[i].url {
            Some(u) => u.clone(),
            None => String::new(),
        };
        templates.push(written);
        i = i + 1;
    }
    let mut resolved = legacy;
    match resolve_legacy_env_with(&mut resolved, &lookup) {
        Err(e) => return Err(e),
        Ok(()) => {},
    }
    assert(legacy_refs_resolved(lookup, l, resolved));
    match validate_proxy_policy(&resolved) {
        Err(e) => return Err(e),
        Ok(()) => {},
    }
    proof {
        law_legacy_policy_implies_migratable(resolved);
    }
    let mut public = match to_public(&resolved) {
        Ok(p) => p,
        Err(e) => return Err(e),
    };
    let ghost p = public;
    match validate(&public) {
        Err(e) => return Err(e),
        Ok(()) => {},
    }
    match restore_env_templates(&mut public, &templates, &lookup) {
        Err(e) => {
            proof {
                assert(exists|k: int|
                    0 <= k < p.backends@.len() && k < templates@.len() && ref_start(
                        (#[trigger] templates@[k])@,
                        0,
                    ) < templates@[k]@.len() && (expansion_reported(
                        lookup,
                        templates@[k]@,
                        Err::<String, GatewayError>(e),
                    ) || template_mismatch(&lookup, templates@[k]@, p.backends@[k], e)));
                let k = choose|k: int|
                    0 <= k < p.backends@.len() && k < templates@.len() && ref_start(
                        (#[trigger] templates@[k])@,
                        0,
                    ) < templates@[k]@.len() && (expansion_reported(
                        lookup,
                        templates@[k]@,
                        Err::<String, GatewayError>(e),
                    ) || template_mismatch(&lookup, templates@[k]@, p.backends@[k], e));
                if template_mismatch(&lookup, templates@[k]@, p.backends@[k], e) {
                    lemma_template_mismatch_by_ref(lookup, templates@[k]@, p.backends@[k], e);
                }
                assert(templates@[k]@ == legacy_url(l.backends@[k]));
                assert(p.backends@[k].id@ == resolved.backends@[k].name@);
                assert(same_but_url(l.backends@[k], resolved.backends@[k]));
                assert(rewrite_failed(lookup, l, p, k, e));
                assert(legacy_refs_resolved(lookup, l, resolved));
                assert(legacy_policy_ok(resolved, false));
                assert(public_migrated_from(p, resolved));
                assert(config_valid(p));
            }
            return Err(e);
        },
        Ok(()) => {},
    }
    proof {
        assert forall|k: int| 0 <= k < p.backends@.len() implies {
            let a = #[trigger] p.backends@[k];
            let b = public.backends@[k];
            &&& b.id == a.id
            &&& b.prefix == a.prefix
            &&& b.required == a.required
            &&& b.timeout_seconds == a.timeout_seconds
            &&& b.url@ == legacy_url(l.backends@[k])
        } by {
            assert(templates@[k]@ == legacy_url(l.backends@[k]));
            let lb = l.backends@[k];
            let rb = resolved.backends@[k];
            assert(same_but_url(lb, rb));
            assert(public.backends@[k].id == p.backends@[k].id);
            assert(public.backends@[k].prefix == p.backends@[k].prefix);
            assert(public.backends@[k].required == p.backends@[k].required);
            assert(public.backends@[k].timeout_seconds == p.backends@[k].timeout_seconds);
            assert(k < templates@.len());
            if !(ref_start(templates@[k]@, 0) < templates@[k]@.len()) {
                assert(p.backends@[k].url@ == legacy_url(rb));
                match lb.url {
                    Some(u) => {
                        assert(rb.url == lb.url);
                    },
                    None => {
                        assert(rb.url is None);
                    },
                }
            }
        }
        assert(written_back(public, p, l));
        assert forall|k: int| 0 <= k < public.backends@.len() implies {
            let a = #[trigger] public.backends@[k];
            let b = p.backends@[k];
            &&& b.id == a.id
            &&& b.prefix == a.prefix
            &&& b.required == a.required
            &&& b.timeout_seconds == a.timeout_seconds
            &&& if ref_start(a.url@, 0) < a.url@.len() {
                expansion_reported(lookup, a.url@, Ok::<String, GatewayError>(b.url))
            } else {
                b.url == a.url
            }
        } by {
            assert(k < templates@.len());
            assert(templates@[k]@ == legacy_url(l.backends@[k]));
        }
        assert(public_refs_resolved(lookup, public, p));
    }
    Ok(public)
}

} // verus!
