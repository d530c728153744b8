//! What the metrics endpoints answer with, as far as it is computed from quantities.
use vstd::prelude::*;

verus! {

/// Usage of one pod: totals over its containers, in Kubernetes quantity notation.
#[derive(Debug, Clone)]
pub struct PodMetrics {
    pub name: String,
    pub namespace: String,
    pub node: String,
    pub cpu: String,
    pub memory: String,
}

/// Pod totals of the cluster summary.
#[derive(Debug, Clone)]
pub struct PodSummary {
    pub count: usize,
    pub cpu_usage: String,
    pub memory_usage: String,
}

/// A node's usage against its capacity, each as `(usage, capacity)` in millicores / MiB,
/// present when both parse and the capacity is positive.
#[derive(Debug, Clone, Copy)]
pub struct NodeRatios {
    pub cpu: Option<(u64, u64)>,
    pub memory: Option<(u64, u64)>,
}

/// One row of the node metrics answer: the quantities as reported, and the parsed
/// usage and capacity the percentages are computed from.
#[derive(Debug, Clone)]
pub struct NodeRow {
    pub name: String,
    pub usage_cpu: String,
    pub capacity_cpu: String,
    pub usage_memory: String,
    pub capacity_memory: String,
    pub ratios: NodeRatios,
}

} // verus!
