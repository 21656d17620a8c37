//! Prefix normalization rules.
//!
//! The namespace contract is `<prefix><upstream tool name>` with `_` as the
//! only separator. Ambiguous inputs are rejected by configuration
//! validation; this module only applies the validated forms and never
//! silently normalizes an ambiguous prefix itself.

use vstd::prelude::*;
use vstd::string::*;

use crate::config::validate::prefix_rule_violated;

verus! {

/// The single namespace separator between backend prefix and tool name.
pub const NAMESPACE_SEPARATOR: &'static str = "_";

/// The backend name a prefix maps to: the prefix without its trailing `_`,
/// when that leaves a non-empty stem.
pub open spec fn mcp_name_spec(prefix: Seq<char>) -> Option<Seq<char>> {
    if prefix.len() >= 2 && prefix.last() == '_' {
        Some(prefix.drop_last())
    } else {
        None
    }
}

/// The `mcp-proxy` backend name that realizes `prefix`: the prefix without
/// its trailing separator.
///
/// Returns `None` unless `prefix` is unambiguously namespaced: one
/// trailing `_` with a non-empty stem before it. Ambiguous forms (`"fs"`,
/// `"_"`, `""`) are rejected instead of being silently normalized.
pub fn mcp_name_from_prefix(prefix: &str) -> (r: Option<&str>)
    ensures
        match r {
            Some(name) => mcp_name_spec(prefix@) == Some(name@),
            None => mcp_name_spec(prefix@) is None,
        },
{
    let n = prefix.unicode_len();
    if n >= 2 && prefix.get_char(n - 1) == '_' {
        let stem = prefix.substring_char(0, n - 1);
        assert(stem@ =~= prefix@.drop_last());
        Some(stem)
    } else {
        None
    }
}

/// The client-visible tool name of an upstream tool.
pub open spec fn public_name_spec(prefix: Seq<char>, upstream: Seq<char>) -> Seq<char> {
    prefix + upstream
}

/// Compute the client-visible tool name for an upstream tool.
///
/// Pure concatenation: the upstream name is never rewritten.
pub fn public_tool_name(prefix: &str, upstream_tool: &str) -> (r: String)
    ensures
        r@ == public_name_spec(prefix@, upstream_tool@),
{
    let mut name = String::from_str(prefix);
    name.append(upstream_tool);
    name
}

/// Every prefix that passes validation maps to a backend name, and that
/// name followed by the separator gives the prefix back.
pub proof fn law_valid_prefix_round_trips(prefix: Seq<char>)
    requires
        prefix_rule_violated(prefix) is None,
    ensures
        mcp_name_spec(prefix) is Some,
        mcp_name_spec(prefix)->0 + seq!['_'] == prefix,
        mcp_name_spec(prefix)->0.len() > 0,
{
    assert(prefix.drop_last() + seq!['_'] =~= prefix);
}

/// Two tool names under one prefix are equal exactly when their upstream
/// names are equal: namespacing never merges distinct tools of a backend.
pub proof fn law_public_names_injective_per_prefix(
    prefix: Seq<char>,
    a: Seq<char>,
    b: Seq<char>,
)
    ensures
        public_name_spec(prefix, a) == public_name_spec(prefix, b) <==> a == b,
{
    if public_name_spec(prefix, a) == public_name_spec(prefix, b) {
        assert(a =~= public_name_spec(prefix, a).skip(prefix.len() as int));
        assert(b =~= public_name_spec(prefix, b).skip(prefix.len() as int));
    }
}

} // verus!
