//! Decisions of the externally served HTTP surface.
//!
//! Routes:
//!
//! * `GET /healthz` — liveness (always `200` while the process serves);
//! * `GET /readyz` — live backend readiness;
//! * `/mcp/*` — the upstream MCP endpoint (client tools only).
//!
//! Everything else is `404`. The upstream `/admin/*` management plane is
//! unreachable both at the top level and through the `/mcp` mount.

use vstd::prelude::*;

use crate::text::{starts_with, str_eq};

verus! {

/// Liveness route.
pub const HEALTHZ_PATH: &'static str = "/healthz";

/// Readiness route.
pub const READYZ_PATH: &'static str = "/readyz";

/// Mount point of the upstream MCP endpoint.
pub const MCP_MOUNT: &'static str = "/mcp";

/// Seconds the readiness check waits for the live backend health report.
pub const READINESS_TIMEOUT_SECONDS: u64 = 2;

/// A path (relative to the `/mcp` mount) that reaches the upstream
/// management plane: `/admin` itself or anything below `/admin/`.
pub open spec fn is_admin_path_spec(path: Seq<char>) -> bool {
    path == "/admin"@ || "/admin/"@.is_prefix_of(path)
}

/// Whether a request to the upstream router must be answered `404`
/// because it targets the management plane.
pub fn is_admin_path(path: &str) -> (r: bool)
    ensures
        r == is_admin_path_spec(path@),
{
    str_eq(path, "/admin") || starts_with(path, "/admin/")
}

/// `/readyz` status from the live health report (`None` when the report
/// did not arrive in time): `200` only when every expected backend
/// reported and all of them are healthy, `503` otherwise.
pub open spec fn readiness_status_spec(statuses: Option<Seq<bool>>, expected: nat) -> u16 {
    match statuses {
        Some(s) => if s.len() == expected && forall|i: int| 0 <= i < s.len() ==> #[trigger] s[i] {
            200u16
        } else {
            503u16
        },
        None => 503u16,
    }
}

/// Decide the `/readyz` status from the live health report.
pub fn readiness_status(statuses: Option<&[bool]>, expected: usize) -> (r: u16)
    ensures
        r == readiness_status_spec(
            match statuses {
                Some(s) => Some(s@),
                None => None,
            },
            expected as nat,
        ),
{
    match statuses {
        None => 503,
        Some(s) => {
            if s.len() != expected {
                return 503;
            }
            let n = s.len();
            let mut i: usize = 0;
            while i < n
                invariant
                    statuses == Some(s),
                    n == s@.len(),
                    n == expected,
                    i <= n,
                    forall|k: int| 0 <= k < i ==> #[trigger] s@[k],
                decreases n - i,
            {
                if !s[i] {
                    assert(!s@[i as int]);
                    return 503;
                }
                i = i + 1;
            }
            200
        },
    }
}

} // verus!
