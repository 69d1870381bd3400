//! A host-side runtime for cooperating plugins: a typed value store addressed
//! by staleness-detecting handles, a registry that tracks who is registered and
//! who is still alive, the capability through which one plugin calls another,
//! and the lifecycle that drives them from discovery to teardown.

pub mod channel;
pub mod datastore;
pub mod depreciated;
pub mod error;
pub mod ieee;
pub mod orchestrator;
pub mod plugin;
pub mod registry;
pub mod slot;
pub mod text;
pub mod token;
pub mod value;

pub use channel::{Reply, Request};
pub use datastore::Data;
pub use error::ManagerError;
pub use orchestrator::Orchestrator;
pub use plugin::Plugin;
pub use registry::PluginRegistry;
pub use slot::ValueStore;
pub use token::{AccessToken, DataHandle};
pub use value::{FloatText, Value, ValueKind};
