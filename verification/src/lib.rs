//! # rwatch
//!
//! The verified core of a cluster monitoring tool: Kubernetes resource quantities
//! (parsing and formatting), `/proc/meminfo` readings, agent lists and discovery,
//! aggregation of agent query results, and the computations behind the metrics
//! endpoints. Network, file and clock access live in the application around it.
use vstd::prelude::*;

pub mod agent;
pub mod client;
pub mod discovery;
pub mod dummy;
pub mod health;
pub mod memory;
pub mod memory_display;
pub mod metrics;
pub mod numeric;
pub mod text;

verus! {

} // verus!
