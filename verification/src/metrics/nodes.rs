//! The node metrics endpoint: each node's usage against its capacity.
use vstd::prelude::*;
use crate::metrics::error::MetricsError;
use crate::metrics::k8s_metrics::{NodeCapacity, NodeMetrics, Quantity, capacity_of, find_capacity};
use crate::metrics::report::{NodeRatios, NodeRow};
use crate::metrics::resource::{
    cpu_millicores_spec, cpu_reading, memory_mib_spec, memory_reading, parse_cpu_to_millicores,
    parse_memory_to_mib,
};

verus! {

pub struct NodeMetricsHandler;

/// Usage against capacity, when both quantities are given: an error when either does not
/// parse (usage first), the pair when the capacity is positive, nothing otherwise.
pub open spec fn pair_spec(
    usage: (Seq<char>, u64),
    capacity: (Seq<char>, u64),
    parse: spec_fn((Seq<char>, u64)) -> Result<u64, Seq<char>>,
) -> Result<Option<(u64, u64)>, Seq<char>> {
    if capacity.0.len() > 0 && usage.0.len() > 0 {
        match parse(usage) {
            Err(e) => Err(e),
            Ok(u) => match parse(capacity) {
                Err(e) => Err(e),
                Ok(c) => Ok(
                    if c > 0 {
                        Some((u, c))
                    } else {
                        None
                    },
                ),
            },
        }
    } else {
        Ok(None)
    }
}

/// The CPU and memory capacity of the node called `name`; empty when it has none.
pub open spec fn capacity_views(caps: Seq<NodeCapacity>, name: Seq<char>) -> (
    (Seq<char>, u64),
    (Seq<char>, u64),
) {
    match capacity_of(caps, name) {
        Some(c) => (c.cpu@, c.memory@),
        None => ((Seq::empty(), 0), (Seq::empty(), 0)),
    }
}

/// The parsed usage of node `m` against its capacity, CPU before memory.
#[verifier::opaque]
pub open spec fn node_row_spec(m: NodeMetrics, caps: Seq<NodeCapacity>) -> Result<NodeRatios, Seq<char>> {
    let (cc, cm) = capacity_views(caps, m.name@);
    match pair_spec(m.usage.cpu@, cc, |q: (Seq<char>, u64)| cpu_reading(q)) {
        Err(e) => Err(e),
        Ok(cpu) => match pair_spec(m.usage.memory@, cm, |q: (Seq<char>, u64)| memory_reading(q)) {
            Err(e) => Err(e),
            Ok(memory) => Ok(NodeRatios { cpu, memory }),
        },
    }
}

/// `row` reports node `m`.
#[verifier::opaque]
pub open spec fn row_matches(row: NodeRow, m: NodeMetrics, caps: Seq<NodeCapacity>) -> bool {
    let (cc, cm) = capacity_views(caps, m.name@);
    &&& row.name@ == m.name@
    &&& row.usage_cpu@ == m.usage.cpu.text@
    &&& row.capacity_cpu@ == cc.0
    &&& row.usage_memory@ == m.usage.memory.text@
    &&& row.capacity_memory@ == cm.0
    &&& node_row_spec(m, caps) == Ok::<NodeRatios, Seq<char>>(row.ratios)
}

/// A node row reads each quantity on its own: the CPU (memory) usage is the reading of the
/// node's own usage quantity, its text with its own floating-point conversion, and the
/// capacity is the reading of the capacity reported last under the node's name, which is
/// positive. When both quantities are given and read, with a positive capacity, the row
/// holds exactly that pair.
pub proof fn lemma_node_row_readings(m: NodeMetrics, caps: Seq<NodeCapacity>)
    ensures
        node_row_spec(m, caps) matches Ok(r) ==> {
            &&& r.cpu matches Some((u, c)) ==> {
                &&& cpu_millicores_spec(m.usage.cpu.text@, m.usage.cpu.float_value) == Ok::<u64, Seq<char>>(u)
                &&& c > 0
                &&& capacity_of(caps, m.name@) matches Some(k) && cpu_millicores_spec(
                    k.cpu.text@,
                    k.cpu.float_value,
                ) == Ok::<u64, Seq<char>>(c)
            }
            &&& r.memory matches Some((u, c)) ==> {
                &&& memory_mib_spec(m.usage.memory.text@, m.usage.memory.float_value) == Ok::<u64, Seq<char>>(u)
                &&& c > 0
                &&& capacity_of(caps, m.name@) matches Some(k) && memory_mib_spec(
                    k.memory.text@,
                    k.memory.float_value,
                ) == Ok::<u64, Seq<char>>(c)
            }
        },
        forall|k: NodeCapacity, u: u64, c: u64|
            capacity_of(caps, m.name@) == Some(k) && node_row_spec(m, caps) is Ok
                && m.usage.cpu.text@.len() > 0 && k.cpu.text@.len() > 0 && c > 0
                && cpu_millicores_spec(m.usage.cpu.text@, m.usage.cpu.float_value) == Ok::<u64, Seq<char>>(u)
                && cpu_millicores_spec(k.cpu.text@, k.cpu.float_value) == Ok::<u64, Seq<char>>(c)
                ==> node_row_spec(m, caps)->Ok_0.cpu == Some((u, c)),
        forall|k: NodeCapacity, u: u64, c: u64|
            capacity_of(caps, m.name@) == Some(k) && node_row_spec(m, caps) is Ok
                && m.usage.memory.text@.len() > 0 && k.memory.text@.len() > 0 && c > 0
                && memory_mib_spec(m.usage.memory.text@, m.usage.memory.float_value) == Ok::<u64, Seq<char>>(u)
                && memory_mib_spec(k.memory.text@, k.memory.float_value) == Ok::<u64, Seq<char>>(c)
                ==> node_row_spec(m, caps)->Ok_0.memory == Some((u, c)),
{
    reveal(node_row_spec);
}

fn cpu_pair(usage: &Quantity, capacity: &Quantity) -> (r: Result<Option<(u64, u64)>, MetricsError>)
    ensures
        match (r, pair_spec(usage@, capacity@, |q: (Seq<char>, u64)| cpu_reading(q))) {
            (Ok(a), Ok(b)) => a == b,
            (Err(MetricsError::ParseError(m)), Err(w)) => m@ == w,
            _ => false,
        },
{
    if !capacity.text.as_str().is_empty() && !usage.text.as_str().is_empty() {
        let u = parse_cpu_to_millicores(usage.text.as_str(), usage.float_value);
        match u {
            Err(e) => Err(e),
            Ok(u) => match parse_cpu_to_millicores(capacity.text.as_str(), capacity.float_value) {
                Err(e) => Err(e),
                Ok(c) => Ok(
                    if c > 0 {
                        Some((u, c))
                    } else {
                        None
                    },
                ),
            },
        }
    } else {
        Ok(None)
    }
}

fn memory_pair(usage: &Quantity, capacity: &Quantity) -> (r: Result<Option<(u64, u64)>, MetricsError>)
    ensures
        match (r, pair_spec(usage@, capacity@, |q: (Seq<char>, u64)| memory_reading(q))) {
            (Ok(a), Ok(b)) => a == b,
            (Err(MetricsError::ParseError(m)), Err(w)) => m@ == w,
            _ => false,
        },
{
    if !capacity.text.as_str().is_empty() && !usage.text.as_str().is_empty() {
        let u = parse_memory_to_mib(usage.text.as_str(), usage.float_value);
        match u {
            Err(e) => Err(e),
            Ok(u) => match parse_memory_to_mib(capacity.text.as_str(), capacity.float_value) {
                Err(e) => Err(e),
                Ok(c) => Ok(
                    if c > 0 {
                        Some((u, c))
                    } else {
                        None
                    },
                ),
            },
        }
    } else {
        Ok(None)
    }
}

fn copy_quantity(q: &Quantity) -> (r: Quantity)
    ensures
        r@ == q@,
{
    Quantity { text: q.text.clone(), float_value: q.float_value }
}

impl NodeMetricsHandler {
    /// The row of node `m`.
    fn row_for(m: &NodeMetrics, caps: &Vec<NodeCapacity>) -> (r: Result<NodeRow, MetricsError>)
        ensures
            match (r, node_row_spec(*m, caps@)) {
                (Ok(row), Ok(_)) => row_matches(row, *m, caps@),
                (Err(MetricsError::ParseError(msg)), Err(w)) => msg@ == w,
                _ => false,
            },
    {
        reveal(node_row_spec);
        reveal(row_matches);
        let (capacity_cpu, capacity_memory) = match find_capacity(caps, &m.name) {
            Some(k) => (copy_quantity(&caps[k].cpu), copy_quantity(&caps[k].memory)),
            None => (
                Quantity { text: String::new(), float_value: 0 },
                Quantity { text: String::new(), float_value: 0 },
            ),
        };
        let cpu = match cpu_pair(&m.usage.cpu, &capacity_cpu) {
            Err(e) => {
                return Err(e);
            },
            Ok(p) => p,
        };
        let memory = match memory_pair(&m.usage.memory, &capacity_memory) {
            Err(e) => {
                return Err(e);
            },
            Ok(p) => p,
        };
        Ok(
            NodeRow {
                name: m.name.clone(),
                usage_cpu: m.usage.cpu.text.clone(),
                capacity_cpu: capacity_cpu.text,
                usage_memory: m.usage.memory.text.clone(),
                capacity_memory: capacity_memory.text,
                ratios: NodeRatios { cpu, memory },
            },
        )
    }

    /// The rows of the node metrics answer, in the order of `metrics`, each node matched
    /// with the capacity reported last under its name. The first quantity that does not
    /// parse (going through the nodes in order, CPU before memory, usage before capacity)
    /// fails the whole answer.
    pub fn rows(metrics: &Vec<NodeMetrics>, caps: &Vec<NodeCapacity>) -> (r: Result<Vec<NodeRow>, MetricsError>)
        ensures
            r is Ok <==> forall|i: int| 0 <= i < metrics@.len() ==> (#[trigger] node_row_spec(metrics@[i], caps@)) is Ok,
            r is Ok ==> r->Ok_0@.len() == metrics@.len() && forall|i: int|
                0 <= i < metrics@.len() ==> row_matches(#[trigger] r->Ok_0@[i], metrics@[i], caps@),
            r is Err ==> exists|i: int|
                #![trigger metrics@[i]]
                0 <= i < metrics@.len() && (forall|j: int| 0 <= j < i ==> (#[trigger] node_row_spec(metrics@[j], caps@)) is Ok)
                    && (r->Err_0 matches MetricsError::ParseError(m) && node_row_spec(metrics@[i], caps@) == Err::<NodeRatios, Seq<char>>(m@)),
    {
        let mut rows: Vec<NodeRow> = Vec::new();
        let mut i: usize = 0;
        while i < metrics.len()
            invariant
                i <= metrics@.len(),
                rows@.len() == i,
                forall|j: int| 0 <= j < i ==> (#[trigger] node_row_spec(metrics@[j], caps@)) is Ok,
                forall|j: int| 0 <= j < i ==> row_matches(#[trigger] rows@[j], metrics@[j], caps@),
            decreases metrics@.len() - i,
        {
            match Self::row_for(&metrics[i], caps) {
                Err(e) => {
                    assert(metrics@[i as int] == metrics@[i as int]);
                    return Err(e);
                },
                Ok(row) => {
                    rows.push(row);
                },
            }
            i = i + 1;
        }
        Ok(rows)
    }
}

} // verus!
