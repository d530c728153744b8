//! Resource metrics: quantity parsing and formatting, and the computations
//! behind the node, pod and summary endpoints.
pub mod error;
pub mod k8s_metrics;
pub mod nodes;
pub mod pods;
pub mod report;
pub mod resource;
pub mod summary;
