//! The cluster summary endpoint: node usage against capacity, and pod totals.
use vstd::prelude::*;
use crate::metrics::k8s_metrics::{self, NodeCapacity, NodeMetrics, capacity_of, find_capacity};
use crate::metrics::pods::{container_totals, containers_cpu, containers_memory};
use crate::metrics::report::{NodeRatios, PodSummary};
use crate::metrics::resource::{
    agrees, cpu_millicores_spec, cpu_reading, cpu_text, format_cpu, format_memory, memory_mib_spec, memory_reading, memory_text,
    parse_cpu_to_millicores, parse_memory_to_mib,
};

verus! {

pub struct SummaryHandler;

/// Usage against capacity when both parse and the capacity is positive.
pub open spec fn ratio_spec(usage: Result<u64, Seq<char>>, capacity: Result<u64, Seq<char>>) -> Option<
    (u64, u64),
> {
    match (usage, capacity) {
        (Ok(u), Ok(c)) => if c > 0 {
            Some((u, c))
        } else {
            None
        },
        _ => None,
    }
}

/// The usage of node `m` against the capacity reported last under its name; nothing
/// for a node with no reported capacity.
pub open spec fn node_ratios_spec(m: NodeMetrics, caps: Seq<NodeCapacity>) -> NodeRatios {
    match capacity_of(caps, m.name@) {
        None => NodeRatios { cpu: None, memory: None },
        Some(c) => NodeRatios {
            cpu: ratio_spec(cpu_reading(m.usage.cpu@), cpu_reading(c.cpu@)),
            memory: ratio_spec(memory_reading(m.usage.memory@), memory_reading(c.memory@)),
        },
    }
}

/// Millicores used by all containers of all pods (containers whose quantity does not parse add nothing).
pub open spec fn pods_cpu(ps: Seq<k8s_metrics::PodMetrics>) -> nat
    decreases ps.len(),
{
    if ps.len() == 0 {
        0
    } else {
        pods_cpu(ps.drop_last()) + containers_cpu(ps.last().containers@)
    }
}

/// MiB used by all containers of all pods (containers whose quantity does not parse add nothing).
pub open spec fn pods_memory(ps: Seq<k8s_metrics::PodMetrics>) -> nat
    decreases ps.len(),
{
    if ps.len() == 0 {
        0
    } else {
        pods_memory(ps.drop_last()) + containers_memory(ps.last().containers@)
    }
}

pub proof fn lemma_pod_sums_monotone(ps: Seq<k8s_metrics::PodMetrics>, i: int)
    requires
        0 <= i <= ps.len(),
    ensures
        pods_cpu(ps.take(i)) <= pods_cpu(ps),
        pods_memory(ps.take(i)) <= pods_memory(ps),
    decreases ps.len() - i,
{
    if i < ps.len() {
        assert(ps.take(i + 1).drop_last() =~= ps.take(i));
        lemma_pod_sums_monotone(ps, i + 1);
    } else {
        assert(ps.take(i) =~= ps);
    }
}

/// The summary totals go pod by pod, each adding the totals of its own containers.
pub proof fn lemma_pod_sums_step(ps: Seq<k8s_metrics::PodMetrics>, p: k8s_metrics::PodMetrics)
    ensures
        pods_cpu(Seq::<k8s_metrics::PodMetrics>::empty()) == 0,
        pods_memory(Seq::<k8s_metrics::PodMetrics>::empty()) == 0,
        pods_cpu(ps.push(p)) == pods_cpu(ps) + containers_cpu(p.containers@),
        pods_memory(ps.push(p)) == pods_memory(ps) + containers_memory(p.containers@),
{
    assert(ps.push(p).drop_last() =~= ps);
}

/// A node's ratios in the summary read each quantity on its own: a CPU (memory) pair is the
/// reading of the node's own usage quantity against the reading of the capacity reported
/// last under its name, which is positive; a node with no reported capacity has none.
pub proof fn lemma_node_ratios_readings(m: NodeMetrics, caps: Seq<NodeCapacity>)
    ensures
        capacity_of(caps, m.name@) is None ==> node_ratios_spec(m, caps).cpu is None
            && node_ratios_spec(m, caps).memory is None,
        node_ratios_spec(m, caps).cpu matches Some((u, c)) ==> {
            &&& cpu_millicores_spec(m.usage.cpu.text@, m.usage.cpu.float_value) == Ok::<u64, Seq<char>>(u)
            &&& c > 0
            &&& capacity_of(caps, m.name@) matches Some(k) && cpu_millicores_spec(
                k.cpu.text@,
                k.cpu.float_value,
            ) == Ok::<u64, Seq<char>>(c)
        },
        node_ratios_spec(m, caps).memory matches Some((u, c)) ==> {
            &&& memory_mib_spec(m.usage.memory.text@, m.usage.memory.float_value) == Ok::<u64, Seq<char>>(u)
            &&& c > 0
            &&& capacity_of(caps, m.name@) matches Some(k) && memory_mib_spec(
                k.memory.text@,
                k.memory.float_value,
            ) == Ok::<u64, Seq<char>>(c)
        },
{
}

fn ratio(usage: Result<u64, crate::metrics::error::MetricsError>, capacity: Result<u64, crate::metrics::error::MetricsError>) -> (r: Option<(u64, u64)>)
    ensures
        forall|su: Result<u64, Seq<char>>, sc: Result<u64, Seq<char>>|
            agrees(usage, su) && agrees(capacity, sc) ==> r == ratio_spec(su, sc),
{
    match (usage, capacity) {
        (Ok(u), Ok(c)) => if c > 0 {
            Some((u, c))
        } else {
            None
        },
        _ => None,
    }
}

impl SummaryHandler {
    /// For each node sample, in order, its usage against its capacity.
    pub fn node_ratios(metrics: &Vec<NodeMetrics>, caps: &Vec<NodeCapacity>) -> (r: Vec<NodeRatios>)
        ensures
            r@.len() == metrics@.len(),
            forall|i: int| 0 <= i < metrics@.len() ==> #[trigger] r@[i] == node_ratios_spec(metrics@[i], caps@),
    {
        let mut out: Vec<NodeRatios> = Vec::new();
        let mut i: usize = 0;
        while i < metrics.len()
            invariant
                i <= metrics@.len(),
                out@.len() == i,
                forall|j: int| 0 <= j < i ==> #[trigger] out@[j] == node_ratios_spec(metrics@[j], caps@),
            decreases metrics@.len() - i,
        {
            let m = &metrics[i];
            let ratios = match find_capacity(caps, &m.name) {
                None => NodeRatios { cpu: None, memory: None },
                Some(k) => {
                    let c = &caps[k];
                    let cpu = ratio(
                        parse_cpu_to_millicores(m.usage.cpu.text.as_str(), m.usage.cpu.float_value),
                        parse_cpu_to_millicores(c.cpu.text.as_str(), c.cpu.float_value),
                    );
                    let memory = ratio(
                        parse_memory_to_mib(m.usage.memory.text.as_str(), m.usage.memory.float_value),
                        parse_memory_to_mib(c.memory.text.as_str(), c.memory.float_value),
                    );
                    NodeRatios { cpu, memory }
                },
            };
            out.push(ratios);
            i = i + 1;
        }
        out
    }

    /// The pod totals of the summary: the number of pod samples and the CPU and memory of
    /// all their containers; `None` when a total passes `u64::MAX`.
    pub fn pod_summary(metrics: &Vec<k8s_metrics::PodMetrics>) -> (r: Option<PodSummary>)
        ensures
            r is Some <==> (pods_cpu(metrics@) <= u64::MAX && pods_memory(metrics@) <= u64::MAX),
            r matches Some(s) ==> {
                &&& s.count == metrics@.len()
                &&& s.cpu_usage@ == cpu_text(pods_cpu(metrics@) as u64)
                &&& s.memory_usage@ == memory_text(pods_memory(metrics@) as u64)
            },
    {
        let mut cpu: u64 = 0;
        let mut memory: u64 = 0;
        let mut i: usize = 0;
        while i < metrics.len()
            invariant
                i <= metrics@.len(),
                cpu == pods_cpu(metrics@.take(i as int)),
                memory == pods_memory(metrics@.take(i as int)),
            decreases metrics@.len() - i,
        {
            proof {
                assert(metrics@.take(i + 1).drop_last() =~= metrics@.take(i as int));
                assert(metrics@.take(i + 1).last() == metrics@[i as int]);
                lemma_pod_sums_monotone(metrics@, i + 1);
            }
            match container_totals(&metrics[i].containers) {
                None => {
                    return None;
                },
                Some((c, m)) => {
                    if c > u64::MAX - cpu || m > u64::MAX - memory {
                        return None;
                    }
                    cpu = cpu + c;
                    memory = memory + m;
                },
            }
            i = i + 1;
        }
        assert(metrics@.take(metrics@.len() as int) =~= metrics@);
        Some(PodSummary { count: metrics.len(), cpu_usage: format_cpu(cpu), memory_usage: format_memory(memory) })
    }
}

} // verus!
