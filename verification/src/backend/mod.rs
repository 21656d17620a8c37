//! Backend domain: validated descriptors, the registry, and the startup
//! probe rules.

pub mod descriptor;
pub mod probe;
pub mod registry;

pub use descriptor::BackendDescriptor;
pub use probe::{ProbeReport, ProbedBackend, UnavailableBackend, UpstreamTool};
pub use registry::BackendRegistry;
