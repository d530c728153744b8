//! The pod metrics endpoint: per-pod usage summed over containers, with the node each pod runs on.
use vstd::prelude::*;
use crate::metrics::k8s_metrics::{self, ContainerMetrics, PodPlacement, find_node, node_of};
use crate::metrics::report;
use crate::metrics::resource::{
    cpu_millicores_spec, cpu_reading, cpu_text, format_cpu, format_memory, memory_mib_spec, memory_reading, memory_text,
    parse_cpu_to_millicores, parse_memory_to_mib,
};

verus! {

pub struct PodMetricsHandler;

/// What a parse result adds to a total: its value, or nothing when it does not parse.
pub open spec fn ok_or_zero(r: Result<u64, Seq<char>>) -> nat {
    match r {
        Ok(v) => v as nat,
        Err(_) => 0,
    }
}

/// Millicores of CPU used by the containers whose CPU quantity parses.
pub open spec fn containers_cpu(cs: Seq<ContainerMetrics>) -> nat
    decreases cs.len(),
{
    if cs.len() == 0 {
        0
    } else {
        containers_cpu(cs.drop_last()) + ok_or_zero(cpu_reading(cs.last().usage.cpu@))
    }
}

/// MiB of memory used by the containers whose memory quantity parses.
pub open spec fn containers_memory(cs: Seq<ContainerMetrics>) -> nat
    decreases cs.len(),
{
    if cs.len() == 0 {
        0
    } else {
        containers_memory(cs.drop_last()) + ok_or_zero(memory_reading(cs.last().usage.memory@))
    }
}

pub proof fn lemma_container_sums_monotone(cs: Seq<ContainerMetrics>, i: int)
    requires
        0 <= i <= cs.len(),
    ensures
        containers_cpu(cs.take(i)) <= containers_cpu(cs),
        containers_memory(cs.take(i)) <= containers_memory(cs),
    decreases cs.len() - i,
{
    if i < cs.len() {
        assert(cs.take(i + 1).drop_last() =~= cs.take(i));
        lemma_container_sums_monotone(cs, i + 1);
    } else {
        assert(cs.take(i) =~= cs);
    }
}

/// Container totals go container by container: each adds the reading of its own CPU and
/// memory quantity (its text with its own floating-point conversion), or nothing when that
/// quantity does not parse.
pub proof fn lemma_container_sums_step(cs: Seq<ContainerMetrics>, c: ContainerMetrics)
    ensures
        containers_cpu(Seq::<ContainerMetrics>::empty()) == 0,
        containers_memory(Seq::<ContainerMetrics>::empty()) == 0,
        containers_cpu(cs.push(c)) == containers_cpu(cs) + match cpu_millicores_spec(
            c.usage.cpu.text@,
            c.usage.cpu.float_value,
        ) {
            Ok(v) => v as nat,
            Err(_) => 0nat,
        },
        containers_memory(cs.push(c)) == containers_memory(cs) + match memory_mib_spec(
            c.usage.memory.text@,
            c.usage.memory.float_value,
        ) {
            Ok(v) => v as nat,
            Err(_) => 0nat,
        },
{
    assert(cs.push(c).drop_last() =~= cs);
}

/// The container totals of a pod fit in 64 bits.
pub open spec fn pod_fits(m: k8s_metrics::PodMetrics) -> bool {
    containers_cpu(m.containers@) <= u64::MAX && containers_memory(m.containers@) <= u64::MAX
}

pub open spec fn text_or_empty(o: Option<String>) -> Seq<char> {
    match o {
        Some(s) => s@,
        None => Seq::empty(),
    }
}

/// The node a pod runs on, by its identifier; empty when unknown.
pub open spec fn pod_node_text(pods: Seq<PodPlacement>, uid: Option<String>) -> Seq<char> {
    match uid {
        Some(u) => match node_of(pods, u@) {
            Some(n) => n,
            None => Seq::empty(),
        },
        None => Seq::empty(),
    }
}

/// `r` reports pod `m`: its name, namespace, node, and container totals.
pub open spec fn pod_report_spec(
    r: report::PodMetrics,
    m: k8s_metrics::PodMetrics,
    pods: Seq<PodPlacement>,
) -> bool {
    &&& r.name@ == text_or_empty(m.name)
    &&& r.namespace@ == text_or_empty(m.namespace)
    &&& r.node@ == pod_node_text(pods, m.uid)
    &&& r.cpu@ == cpu_text(containers_cpu(m.containers@) as u64)
    &&& r.memory@ == memory_text(containers_memory(m.containers@) as u64)
}

/// A pod report carries the pod sample's own name and namespace, each empty when the
/// sample has none.
pub proof fn lemma_pod_report_identity(
    r: report::PodMetrics,
    m: k8s_metrics::PodMetrics,
    pods: Seq<PodPlacement>,
)
    requires
        pod_report_spec(r, m, pods),
    ensures
        r.name@ == (match m.name {
            Some(s) => s@,
            None => Seq::<char>::empty(),
        }),
        r.namespace@ == (match m.namespace {
            Some(s) => s@,
            None => Seq::<char>::empty(),
        }),
{
}

/// The CPU and memory totals of containers, or `None` when a total passes `u64::MAX`.
pub fn container_totals(cs: &Vec<ContainerMetrics>) -> (r: Option<(u64, u64)>)
    ensures
        r is Some <==> (containers_cpu(cs@) <= u64::MAX && containers_memory(cs@) <= u64::MAX),
        r matches Some((c, m)) ==> c == containers_cpu(cs@) && m == containers_memory(cs@),
{
    let mut cpu: u64 = 0;
    let mut memory: u64 = 0;
    let mut i: usize = 0;
    while i < cs.len()
        invariant
            i <= cs@.len(),
            cpu == containers_cpu(cs@.take(i as int)),
            memory == containers_memory(cs@.take(i as int)),
        decreases cs@.len() - i,
    {
        proof {
            assert(cs@.take(i + 1).drop_last() =~= cs@.take(i as int));
            assert(cs@.take(i + 1).last() == cs@[i as int]);
            lemma_container_sums_monotone(cs@, i + 1);
        }
        let c = &cs[i];
        match parse_cpu_to_millicores(c.usage.cpu.text.as_str(), c.usage.cpu.float_value) {
            Ok(v) => {
                if v > u64::MAX - cpu {
                    return None;
                }
                cpu = cpu + v;
            },
            Err(_) => {},
        }
        match parse_memory_to_mib(c.usage.memory.text.as_str(), c.usage.memory.float_value) {
            Ok(v) => {
                if v > u64::MAX - memory {
                    return None;
                }
                memory = memory + v;
            },
            Err(_) => {},
        }
        i = i + 1;
    }
    assert(cs@.take(cs@.len() as int) =~= cs@);
    Some((cpu, memory))
}

fn text_or_empty_exec(o: &Option<String>) -> (s: String)
    ensures
        s@ == text_or_empty(*o),
{
    match o {
        Some(s) => s.clone(),
        None => String::new(),
    }
}

impl PodMetricsHandler {
    /// The per-pod answer of the pod metrics endpoint, in the order of `metrics`: each
    /// pod's container CPU and memory totals (containers whose quantity does not parse add
    /// nothing), and the node that `pods` places it on. `None` when a pod's total passes
    /// `u64::MAX`.
    pub fn reports(metrics: &Vec<k8s_metrics::PodMetrics>, pods: &Vec<PodPlacement>) -> (r: Option<
        Vec<report::PodMetrics>,
    >)
        ensures
            r is Some <==> forall|i: int| 0 <= i < metrics@.len() ==> pod_fits(#[trigger] metrics@[i]),
            r is Some ==> r->0@.len() == metrics@.len() && forall|i: int|
                0 <= i < metrics@.len() ==> pod_report_spec(
                    #[trigger] r->0@[i],
                    metrics@[i],
                    pods@,
                ),
            r is Some ==> forall|i: int|
                0 <= i < metrics@.len() ==> {
                    &&& (#[trigger] r->0@[i]).name@ == (match metrics@[i].name {
                        Some(s) => s@,
                        None => Seq::<char>::empty(),
                    })
                    &&& r->0@[i].namespace@ == (match metrics@[i].namespace {
                        Some(s) => s@,
                        None => Seq::<char>::empty(),
                    })
                },
    {
        let mut out: Vec<report::PodMetrics> = Vec::new();
        let mut i: usize = 0;
        while i < metrics.len()
            invariant
                i <= metrics@.len(),
                out@.len() == i,
                forall|j: int| 0 <= j < i ==> pod_fits(#[trigger] metrics@[j]),
                forall|j: int| 0 <= j < i ==> pod_report_spec(#[trigger] out@[j], metrics@[j], pods@),
            decreases metrics@.len() - i,
        {
            let m = &metrics[i];
            let (cpu, memory) = match container_totals(&m.containers) {
                Some(t) => t,
                None => {
                    return None;
                },
            };
            let node = match &m.uid {
                Some(u) => match find_node(pods, u) {
                    Some(n) => n.clone(),
                    None => String::new(),
                },
                None => String::new(),
            };
            let rep = report::PodMetrics {
                name: text_or_empty_exec(&m.name),
                namespace: text_or_empty_exec(&m.namespace),
                node,
                cpu: format_cpu(cpu),
                memory: format_memory(memory),
            };
            out.push(rep);
            i = i + 1;
        }
        proof {
            assert forall|i: int| 0 <= i < metrics@.len() implies {
                &&& (#[trigger] out@[i]).name@ == (match metrics@[i].name {
                    Some(s) => s@,
                    None => Seq::<char>::empty(),
                })
                &&& out@[i].namespace@ == (match metrics@[i].namespace {
                    Some(s) => s@,
                    None => Seq::<char>::empty(),
                })
            } by {
                lemma_pod_report_identity(out@[i], metrics@[i], pods@);
            }
        }
        Some(out)
    }
}

} // verus!
