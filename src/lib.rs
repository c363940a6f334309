//! A federated service-discovery DNS resolver: the registry of services that
//! each node and its peers expose, the grammar of container labels that feeds
//! it, the HTTP exchange between nodes and the DNS resolution cascade.

pub mod api;
pub mod bindings;
pub mod env;
pub mod harvest;
pub mod labels;
pub mod memory_kv;
pub mod registry;
pub mod resolver;
