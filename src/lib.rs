//! Endpoint and cluster state for a UDP proxy: the flattened set of backend
//! endpoints that the packet path reads, how control-plane updates are merged
//! into it, and the decisions of the task that ingests those updates.
pub mod cluster_manager;
pub mod cluster_update;
pub mod debug;
pub mod endpoint;
pub mod filter_set;
