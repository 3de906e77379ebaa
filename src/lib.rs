//! A cache of Kubernetes resources for policy evaluation: selector parsing,
//! the statements that keep one table per watched resource kind, schema and
//! reflector registries, and the decisions of the callback bridge.
pub mod selector;
pub mod store;
pub mod registry;
pub mod schema;
pub mod client;
pub mod reflector;
pub mod callback;
