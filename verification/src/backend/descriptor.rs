//! Validated backend descriptor.
//!
//! A descriptor can only be created from a configuration entry that passes
//! the public policy validators, so no unvalidated URL, prefix, or id can
//! ever reach the gateway runtime.

use vstd::prelude::*;
use vstd::string::*;

use crate::config::model::BackendEntry;
use crate::config::validate::{
    backend_url_allowed, entry_fault, id_rule_violated, is_exact_loopback_mcp_url,
    is_exact_tailnet_https_mcp_url, is_id_error, is_prefix_error, prefix_rule_violated,
    validate_backend_id, validate_backend_prefix, EntryFault, MAX_BACKEND_TIMEOUT_SECONDS,
};
use crate::error::{GatewayError, PrefixRule};
use crate::namespace::normalize::{mcp_name_from_prefix, mcp_name_spec};

verus! {

/// The abstract content of a descriptor.
pub ghost struct DescriptorView {
    pub id: Seq<char>,
    pub prefix: Seq<char>,
    pub mcp_name: Seq<char>,
    pub url: Seq<char>,
    pub required: bool,
    pub timeout_seconds: u64,
}

/// A fully validated backend description.
#[derive(Debug)]
pub struct BackendDescriptor {
    id: String,
    prefix: String,
    mcp_name: String,
    url: String,
    required: bool,
    timeout_seconds: u64,
}

impl View for BackendDescriptor {
    type V = DescriptorView;

    closed spec fn view(&self) -> DescriptorView {
        DescriptorView {
            id: self.id@,
            prefix: self.prefix@,
            mcp_name: self.mcp_name@,
            url: self.url@,
            required: self.required,
            timeout_seconds: self.timeout_seconds,
        }
    }
}

impl Clone for BackendDescriptor {
    fn clone(&self) -> (r: Self)
        ensures
            r@ == self@,
    {
        proof {
            use_type_invariant(self);
        }
        BackendDescriptor {
            id: self.id.clone(),
            prefix: self.prefix.clone(),
            mcp_name: self.mcp_name.clone(),
            url: self.url.clone(),
            required: self.required,
            timeout_seconds: self.timeout_seconds,
        }
    }
}

/// The descriptor that a valid entry yields.
pub open spec fn descriptor_of(entry: BackendEntry) -> DescriptorView {
    DescriptorView {
        id: entry.id@,
        prefix: entry.prefix@,
        mcp_name: entry.prefix@.drop_last(),
        url: entry.url@,
        required: entry.required,
        timeout_seconds: entry.timeout_seconds,
    }
}

/// What every descriptor satisfies: a valid id and prefix, a name that is
/// the prefix stem, an admitted endpoint and a timeout within bounds.
pub open spec fn descriptor_wf(d: DescriptorView) -> bool {
    &&& id_rule_violated(d.id) is None
    &&& prefix_rule_violated(d.prefix) is None
    &&& mcp_name_spec(d.prefix) == Some(d.mcp_name)
    &&& backend_url_allowed(d.url, true)
    &&& 1 <= d.timeout_seconds <= MAX_BACKEND_TIMEOUT_SECONDS
}

/// `e` is the error that constructing a descriptor from `entry` reports.
pub open spec fn is_descriptor_error(e: GatewayError, entry: BackendEntry, allow_tailnet: bool) -> bool {
    match entry_fault(entry, allow_tailnet) {
        Some(EntryFault::Id(_)) => is_id_error(e, entry.id@),
        Some(EntryFault::Prefix(_)) => is_prefix_error(e, entry.prefix@),
        Some(EntryFault::Url) => e matches GatewayError::InvalidBackendUrl { url } && url@ == entry.url@,
        Some(EntryFault::Timeout) => e matches GatewayError::BackendTimeoutOutOfRange { id } && id@
            == entry.id@,
        None => false,
    }
}

impl BackendDescriptor {
    #[verifier::type_invariant]
    spec fn inv(&self) -> bool {
        descriptor_wf(self@)
    }

    /// Construct a descriptor from a configuration entry, re-running every
    /// public validator; only loopback endpoints are admitted.
    pub fn try_from_entry(entry: &BackendEntry) -> (r: Result<Self, GatewayError>)
        ensures
            r is Ok <==> entry_fault(*entry, false) is None,
            r matches Ok(d) ==> d@ == descriptor_of(*entry),
            r matches Err(e) ==> is_descriptor_error(e, *entry, false),
    {
        Self::try_from_entry_with_policy(entry, false)
    }

    /// Construct a descriptor, admitting Tailscale HTTPS endpoints when the
    /// configuration opted into them.
    pub fn try_from_entry_with_policy(entry: &BackendEntry, allow_tailnet: bool) -> (r: Result<
        Self,
        GatewayError,
    >)
        ensures
            r is Ok <==> entry_fault(*entry, allow_tailnet) is None,
            r matches Ok(d) ==> d@ == descriptor_of(*entry),
            r matches Err(e) ==> is_descriptor_error(e, *entry, allow_tailnet),
    {
        match validate_backend_id(entry.id.as_str()) {
            Err(e) => return Err(e),
            Ok(()) => {},
        }
        match validate_backend_prefix(entry.prefix.as_str()) {
            Err(e) => return Err(e),
            Ok(()) => {},
        }
        let url = entry.url.as_str();
        if !(is_exact_loopback_mcp_url(url) || (allow_tailnet && is_exact_tailnet_https_mcp_url(
            url,
        ))) {
            return Err(GatewayError::InvalidBackendUrl { url: entry.url.clone() });
        }
        if !(1 <= entry.timeout_seconds && entry.timeout_seconds <= MAX_BACKEND_TIMEOUT_SECONDS) {
            return Err(GatewayError::BackendTimeoutOutOfRange { id: entry.id.clone() });
        }
        let mcp_name = match mcp_name_from_prefix(entry.prefix.as_str()) {
            Some(name) => String::from_str(name),
            None => {
                proof {
                    assert(false);
                }
                return Err(
                    GatewayError::InvalidBackendPrefix {
                        prefix: entry.prefix.clone(),
                        rule: PrefixRule::EmptyStem,
                    },
                );
            },
        };
        Ok(
            BackendDescriptor {
                id: entry.id.clone(),
                prefix: entry.prefix.clone(),
                mcp_name,
                url: entry.url.clone(),
                required: entry.required,
                timeout_seconds: entry.timeout_seconds,
            },
        )
    }

    /// Stable backend identifier.
    pub fn id(&self) -> (r: &str)
        ensures
            r@ == self@.id,
            descriptor_wf(self@),
    {
        proof {
            use_type_invariant(self);
        }
        self.id.as_str()
    }

    /// Namespace prefix applied to this backend's tools.
    pub fn prefix(&self) -> (r: &str)
        ensures
            r@ == self@.prefix,
            descriptor_wf(self@),
    {
        proof {
            use_type_invariant(self);
        }
        self.prefix.as_str()
    }

    /// `mcp-proxy` namespace name derived from the prefix.
    pub fn mcp_name(&self) -> (r: &str)
        ensures
            r@ == self@.mcp_name,
            descriptor_wf(self@),
    {
        proof {
            use_type_invariant(self);
        }
        self.mcp_name.as_str()
    }

    /// Streamable HTTP MCP endpoint.
    pub fn url(&self) -> (r: &str)
        ensures
            r@ == self@.url,
            descriptor_wf(self@),
    {
        proof {
            use_type_invariant(self);
        }
        self.url.as_str()
    }

    /// Whether an outage at startup must fail the gateway.
    pub fn required(&self) -> (r: bool)
        ensures
            r == self@.required,
            descriptor_wf(self@),
    {
        proof {
            use_type_invariant(self);
        }
        self.required
    }

    /// Timeout seconds as configured (always within `1..=300`).
    pub fn timeout_seconds(&self) -> (r: u64)
        ensures
            r == self@.timeout_seconds,
            1 <= r <= MAX_BACKEND_TIMEOUT_SECONDS,
            descriptor_wf(self@),
    {
        proof {
            use_type_invariant(self);
        }
        self.timeout_seconds
    }

    /// Request timeout: [`Self::timeout_seconds`] as a `Duration`.
    pub fn timeout(&self) -> (r: std::time::Duration)
        ensures
            r == duration_of_secs(self@.timeout_seconds),
    {
        duration_from_secs(self.timeout_seconds())
    }
}

/// The `Duration` that `std::time::Duration::from_secs` makes of `secs`
/// whole seconds.
pub uninterp spec fn duration_of_secs(secs: u64) -> std::time::Duration;

/// `std::time::Duration::from_secs`, which never panics. `Duration` is
/// opaque to the verifier, so the contract names the value, which depends
/// on `secs` alone.
#[verifier::external_body]
pub(crate) fn duration_from_secs(secs: u64) -> (r: std::time::Duration)
    ensures
        r == duration_of_secs(secs),
{
    std::time::Duration::from_secs(secs)
}

/// Seconds a startup probe of `d` may take: the backend timeout, but at
/// least one second.
pub open spec fn probe_timeout_spec(d: DescriptorView) -> u64 {
    if d.timeout_seconds < 1 {
        1
    } else {
        d.timeout_seconds
    }
}

/// Startup probe timeout of a backend, in seconds: its request timeout,
/// never below one second.
pub fn probe_timeout(descriptor: &BackendDescriptor) -> (r: u64)
    ensures
        r == probe_timeout_spec(descriptor@),
        r == descriptor@.timeout_seconds,
{
    let t = descriptor.timeout_seconds();
    if t < 1 {
        1
    } else {
        t
    }
}

} // verus!
