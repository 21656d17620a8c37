//! The arbitrary backend registry.
//!
//! Holds 0..N validated descriptors in deterministic (configuration) order
//! and knows nothing about any specific deployment, integration, or vendor.

use vstd::prelude::*;
use vstd::std_specs::iter::IteratorSpec;

use crate::backend::descriptor::{descriptor_of, BackendDescriptor, DescriptorView};
use crate::config::model::GatewayConfig;
use crate::config::validate::{
    config_valid, entry_fault, first_faulty_entry_from, is_validation_error,
    lemma_first_faulty_entry_from, validate,
};
use crate::error::GatewayError;

verus! {

/// Ordered registry of validated backend descriptors.
#[derive(Debug)]
pub struct BackendRegistry {
    backends: Vec<BackendDescriptor>,
}

impl View for BackendRegistry {
    type V = Seq<DescriptorView>;

    closed spec fn view(&self) -> Seq<DescriptorView> {
        self.backends@.map_values(|d: BackendDescriptor| d@)
    }
}

/// The registry content a valid configuration yields: one descriptor per
/// entry, in configuration order.
pub open spec fn registry_of(config: GatewayConfig) -> Seq<DescriptorView> {
    config.backends@.map_values(|e| descriptor_of(e))
}

impl BackendRegistry {
    /// Build the registry from a configuration, validating every entry.
    /// Order is exactly the configuration order.
    pub fn from_config(config: &GatewayConfig) -> (r: Result<Self, GatewayError>)
        ensures
            r is Ok <==> config_valid(*config),
            r matches Ok(reg) ==> reg@ == registry_of(*config),
            r matches Err(e) ==> is_validation_error(*config, e),
    {
        match validate(config) {
            Err(e) => return Err(e),
            Ok(()) => {},
        }
        let allow = config.policy.allow_non_loopback_backends;
        let ghost bs = config.backends@;
        proof {
            lemma_first_faulty_entry_from(bs, allow, 0);
        }
        let n = config.backends.len();
        let mut backends: Vec<BackendDescriptor> = Vec::new();
        let mut i: usize = 0;
        while i < n
            invariant
                n == bs.len(),
                bs == config.backends@,
                allow == config.policy.allow_non_loopback_backends,
                config_valid(*config),
                forall|k: int| 0 <= k < n ==> entry_fault(#[trigger] bs[k], allow) is None,
                i <= n,
                backends@.len() == i,
                forall|k: int| 0 <= k < i ==> #[trigger] backends@[k]@ == descriptor_of(bs[k]),
            decreases n - i,
        {
            match BackendDescriptor::try_from_entry_with_policy(&config.backends[i], allow) {
                Ok(d) => backends.push(d),
                Err(e) => {
                    assert(entry_fault(bs[i as int], allow) is None);
                    return Err(e);
                },
            }
            i = i + 1;
        }
        let reg = BackendRegistry { backends };
        assert(reg@ =~= registry_of(*config));
        Ok(reg)
    }

    /// Construct a registry from already-validated descriptors.
    pub fn from_descriptors(backends: Vec<BackendDescriptor>) -> (r: Self)
        ensures
            r@ == backends@.map_values(|d: BackendDescriptor| d@),
    {
        BackendRegistry { backends }
    }

    /// Look up a backend by exact id (never fuzzy, never normalized).
    pub fn get(&self, id: &str) -> (r: Option<&BackendDescriptor>)
        ensures
            match r {
                Some(d) => exists|i: int|
                    0 <= i < self@.len() && self@[i].id == id@ && d@ == self@[i] && forall|j: int|
                        0 <= j < i ==> #[trigger] self@[j].id != id@,
                None => forall|i: int| 0 <= i < self@.len() ==> #[trigger] self@[i].id != id@,
            },
    {
        let n = self.backends.len();
        let mut i: usize = 0;
        while i < n
            invariant
                n == self@.len(),
                n == self.backends@.len(),
                self@ == self.backends@.map_values(|d: BackendDescriptor| d@),
                i <= n,
                forall|j: int| 0 <= j < i ==> #[trigger] self@[j].id != id@,
            decreases n - i,
        {
            let d = &self.backends[i];
            if crate::text::str_eq(d.id(), id) {
                assert(self@[i as int] == d@);
                return Some(d);
            }
            i = i + 1;
        }
        None
    }

    /// Deterministic iteration in configuration order.
    pub fn iter(&self) -> (r: std::slice::Iter<'_, BackendDescriptor>)
        ensures
            r.remaining().unref().map_values(|d: BackendDescriptor| d@) == self@,
    {
        let it = self.backends.as_slice().iter();
        assert(it.remaining().unref() =~= self.backends@);
        it
    }

    /// The descriptors in configuration order.
    pub fn descriptors(&self) -> (r: &[BackendDescriptor])
        ensures
            r@.map_values(|d: BackendDescriptor| d@) == self@,
    {
        self.backends.as_slice()
    }

    /// Number of registered backends.
    pub fn len(&self) -> (r: usize)
        ensures
            r == self@.len(),
    {
        self.backends.len()
    }

    /// Whether the registry is empty.
    pub fn is_empty(&self) -> (r: bool)
        ensures
            r == (self@.len() == 0),
    {
        self.backends.len() == 0
    }
}

} // verus!
