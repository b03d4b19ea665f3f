//! Completion models, whichever provider serves them.
pub mod client;
pub mod erased;
pub mod registry;
pub mod runtime;
pub mod settings;
pub mod spec;
pub use client::ProviderError;
pub use registry::provider_names;
pub use runtime::{ModelRuntime, ProviderConfigs};
pub use settings::{EnvironmentError, EnvironmentSource, ProcessEnvironment};
pub use spec::{ModelId, ModelSpec, ModelSpecError, ProviderId};
