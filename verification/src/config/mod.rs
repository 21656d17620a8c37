//! Versioned public configuration: the model, its fail-closed validators,
//! the legacy deployment model and the migrations between the two, and the
//! pure parts of configuration loading.

pub mod legacy;
pub mod load;
pub mod migrate;
pub mod model;
mod toml_keys;
pub mod validate;

pub use load::load_gateway_config;
pub use model::{BackendEntry, GatewayConfig, ObservabilityConfig, PolicyConfig, ServerConfig};
pub use validate::{
    validate, ALLOWED_PREFIX_CHARSET, MAX_ARGUMENT_SIZE_BYTES, RESERVED_PREFIXES, SCHEMA_VERSION,
};
