//! Results of querying agents, and their aggregation across a cluster.
use vstd::prelude::*;
use crate::health::HealthResponse;
use crate::memory::Memory;

verus! {

/// Complete data from an agent
#[derive(Debug, Clone)]
pub struct AgentData {
    pub url: String,
    pub health: HealthResponse,
    pub memory: Memory,
}

/// Result of querying an agent
#[derive(Debug, Clone)]
pub enum AgentResult {
    Success(AgentData),
    Failure { url: String, error: String },
}

/// The URL an agent result is about.
pub open spec fn result_url(r: AgentResult) -> Seq<char> {
    match r {
        AgentResult::Success(data) => data.url@,
        AgentResult::Failure { url, .. } => url@,
    }
}

impl AgentResult {
    /// Check if the result is a success
    pub fn is_success(&self) -> (b: bool)
        ensures
            b == (*self is Success),
    {
        match self {
            AgentResult::Success(_) => true,
            AgentResult::Failure { .. } => false,
        }
    }

    /// Get the agent URL
    pub fn url(&self) -> (u: &str)
        ensures
            u@ == result_url(*self),
    {
        match self {
            AgentResult::Success(data) => data.url.as_str(),
            AgentResult::Failure { url, .. } => url.as_str(),
        }
    }

    /// Get the agent data if successful
    pub fn data(&self) -> (d: Option<&AgentData>)
        ensures
            d is Some <==> *self is Success,
            d is Some ==> *d->0 == self->Success_0,
    {
        match self {
            AgentResult::Success(data) => Some(data),
            AgentResult::Failure { .. } => None,
        }
    }
}

/// The result of querying the agent at `url`: its data, or a failure with the error text.
pub fn agent_result(url: &String, outcome: Result<AgentData, String>) -> (r: AgentResult)
    ensures
        match outcome {
            Ok(data) => r == AgentResult::Success(data),
            Err(error) => r matches AgentResult::Failure { url: u, error: e } && u@ == url@ && e
                == error,
        },
{
    match outcome {
        Ok(data) => AgentResult::Success(data),
        Err(error) => AgentResult::Failure { url: url.clone(), error },
    }
}

/// Aggregated metrics from multiple agents
#[derive(Debug, Clone)]
pub struct AggregatedMetrics {
    pub total_nodes: usize,
    pub healthy_nodes: usize,
    pub failed_nodes: usize,
    pub total_memory_bytes: u64,
    pub available_memory_bytes: u64,
}

impl Default for AggregatedMetrics {
    fn default() -> (m: AggregatedMetrics)
        ensures
            m.total_nodes == 0,
            m.healthy_nodes == 0,
            m.failed_nodes == 0,
            m.total_memory_bytes == 0,
            m.available_memory_bytes == 0,
    {
        AggregatedMetrics {
            total_nodes: 0,
            healthy_nodes: 0,
            failed_nodes: 0,
            total_memory_bytes: 0,
            available_memory_bytes: 0,
        }
    }
}

impl AggregatedMetrics {
    /// Memory in use across the healthy agents: total minus available, never below zero.
    pub fn used_memory_bytes(&self) -> (u: u64)
        ensures
            u == (if self.total_memory_bytes >= self.available_memory_bytes {
                (self.total_memory_bytes - self.available_memory_bytes) as u64
            } else {
                0u64
            }),
    {
        self.total_memory_bytes.saturating_sub(self.available_memory_bytes)
    }
}

/// The number of successful results.
pub open spec fn healthy_count(rs: Seq<AgentResult>) -> nat
    decreases rs.len(),
{
    if rs.len() == 0 {
        0
    } else {
        healthy_count(rs.drop_last()) + if rs.last() is Success {
            1nat
        } else {
            0nat
        }
    }
}

/// The number of failed results.
pub open spec fn failed_count(rs: Seq<AgentResult>) -> nat
    decreases rs.len(),
{
    if rs.len() == 0 {
        0
    } else {
        failed_count(rs.drop_last()) + if rs.last() is Failure {
            1nat
        } else {
            0nat
        }
    }
}

/// Total memory of the successful results, in KiB.
pub open spec fn total_kib(rs: Seq<AgentResult>) -> nat
    decreases rs.len(),
{
    if rs.len() == 0 {
        0
    } else {
        total_kib(rs.drop_last()) + match rs.last() {
            AgentResult::Success(d) => d.memory.total as nat,
            AgentResult::Failure { .. } => 0nat,
        }
    }
}

/// Available memory of the successful results, in KiB.
pub open spec fn available_kib(rs: Seq<AgentResult>) -> nat
    decreases rs.len(),
{
    if rs.len() == 0 {
        0
    } else {
        available_kib(rs.drop_last()) + match rs.last() {
            AgentResult::Success(d) => d.memory.available as nat,
            AgentResult::Failure { .. } => 0nat,
        }
    }
}

/// The byte totals of the results fit in 64 bits.
pub open spec fn aggregate_fits_spec(rs: Seq<AgentResult>) -> bool {
    total_kib(rs) * 1024 <= u64::MAX && available_kib(rs) * 1024 <= u64::MAX
}

/// Whether `aggregate_results` can sum the memory of `results` without overflow.
pub fn aggregate_fits(results: &[AgentResult]) -> (b: bool)
    ensures
        b == aggregate_fits_spec(results@),
{
    let limit: u64 = u64::MAX / 1024;
    let mut total: u64 = 0;
    let mut available: u64 = 0;
    let mut i: usize = 0;
    while i < results.len()
        invariant
            i <= results@.len(),
            limit == u64::MAX / 1024,
            total == total_kib(results@.take(i as int)),
            available == available_kib(results@.take(i as int)),
            total <= limit,
            available <= limit,
        decreases results@.len() - i,
    {
        proof {
            assert(results@.take(i + 1).drop_last() =~= results@.take(i as int));
        }
        match &results[i] {
            AgentResult::Success(data) => {
                if data.memory.total > limit - total || data.memory.available > limit - available {
                    proof {
                        lemma_kib_prefix_monotone(results@, i + 1);
                    }
                    return false;
                }
                total = total + data.memory.total;
                available = available + data.memory.available;
            },
            AgentResult::Failure { .. } => {},
        }
        i = i + 1;
    }
    assert(results@.take(results@.len() as int) =~= results@);
    true
}

/// The memory sums over a prefix are at most the sums over the whole sequence.
pub proof fn lemma_kib_prefix_monotone(rs: Seq<AgentResult>, i: int)
    requires
        0 <= i <= rs.len(),
    ensures
        total_kib(rs.take(i)) <= total_kib(rs),
        available_kib(rs.take(i)) <= available_kib(rs),
    decreases rs.len() - i,
{
    if i < rs.len() {
        assert(rs.take(i + 1).drop_last() =~= rs.take(i));
        lemma_kib_prefix_monotone(rs, i + 1);
    } else {
        assert(rs.take(i) =~= rs);
    }
}

/// Aggregate results from multiple agents: every result is a node; successes are healthy
/// and add their memory (KiB from `/proc/meminfo`, converted to bytes), failures are failed.
pub fn aggregate_results(results: &[AgentResult]) -> (m: AggregatedMetrics)
    requires
        aggregate_fits_spec(results@),
    ensures
        m.total_nodes == results@.len(),
        m.healthy_nodes == healthy_count(results@),
        m.failed_nodes == failed_count(results@),
        m.healthy_nodes + m.failed_nodes == m.total_nodes,
        m.total_memory_bytes == total_kib(results@) * 1024,
        m.available_memory_bytes == available_kib(results@) * 1024,
{
    let mut metrics = AggregatedMetrics::default();
    let mut i: usize = 0;
    proof {
        lemma_kib_prefix_monotone(results@, 0);
    }
    while i < results.len()
        invariant
            i <= results@.len(),
            aggregate_fits_spec(results@),
            metrics.total_nodes == i,
            metrics.healthy_nodes == healthy_count(results@.take(i as int)),
            metrics.failed_nodes == failed_count(results@.take(i as int)),
            metrics.healthy_nodes + metrics.failed_nodes == i,
            metrics.total_memory_bytes == total_kib(results@.take(i as int)) * 1024,
            metrics.available_memory_bytes == available_kib(results@.take(i as int)) * 1024,
        decreases results@.len() - i,
    {
        proof {
            assert(results@.take(i + 1).drop_last() =~= results@.take(i as int));
            lemma_kib_prefix_monotone(results@, i + 1);
        }
        metrics.total_nodes = metrics.total_nodes + 1;
        match &results[i] {
            AgentResult::Success(data) => {
                metrics.healthy_nodes = metrics.healthy_nodes + 1;
                metrics.total_memory_bytes = metrics.total_memory_bytes + data.memory.total * 1024;
                metrics.available_memory_bytes = metrics.available_memory_bytes
                    + data.memory.available * 1024;
            },
            AgentResult::Failure { .. } => {
                metrics.failed_nodes = metrics.failed_nodes + 1;
            },
        }
        i = i + 1;
    }
    assert(results@.take(results@.len() as int) =~= results@);
    metrics
}

/// Aggregation goes result by result: a success adds one healthy node and its own total
/// and available memory, a failure adds one failed node and no memory; nothing is counted
/// for no results.
pub proof fn lemma_aggregate_step(rs: Seq<AgentResult>, r: AgentResult)
    ensures
        healthy_count(Seq::<AgentResult>::empty()) == 0,
        failed_count(Seq::<AgentResult>::empty()) == 0,
        total_kib(Seq::<AgentResult>::empty()) == 0,
        available_kib(Seq::<AgentResult>::empty()) == 0,
        healthy_count(rs.push(r)) == healthy_count(rs) + if r is Success {
            1nat
        } else {
            0nat
        },
        failed_count(rs.push(r)) == failed_count(rs) + if r is Failure {
            1nat
        } else {
            0nat
        },
        total_kib(rs.push(r)) == total_kib(rs) + match r {
            AgentResult::Success(d) => d.memory.total as nat,
            AgentResult::Failure { .. } => 0nat,
        },
        available_kib(rs.push(r)) == available_kib(rs) + match r {
            AgentResult::Success(d) => d.memory.available as nat,
            AgentResult::Failure { .. } => 0nat,
        },
{
    assert(rs.push(r).drop_last() =~= rs);
    assert(rs.push(r).last() == r);
}

/// The aggregate of two runs of results is the sum of their aggregates, whatever their order.
pub proof fn lemma_aggregate_concat(a: Seq<AgentResult>, b: Seq<AgentResult>)
    ensures
        healthy_count(a + b) == healthy_count(a) + healthy_count(b),
        failed_count(a + b) == failed_count(a) + failed_count(b),
        total_kib(a + b) == total_kib(a) + total_kib(b),
        available_kib(a + b) == available_kib(a) + available_kib(b),
        total_kib(a + b) == total_kib(b + a),
        available_kib(a + b) == available_kib(b + a),
    decreases b.len(),
{
    if b.len() == 0 {
        assert(a + b =~= a);
        assert(b + a =~= a);
    } else {
        let b2 = b.drop_last();
        assert((a + b).drop_last() =~= a + b2);
        assert((a + b).last() == b.last());
        lemma_aggregate_concat(a, b2);
        lemma_aggregate_concat_sum(b, a);
    }
}

proof fn lemma_aggregate_concat_sum(a: Seq<AgentResult>, b: Seq<AgentResult>)
    ensures
        total_kib(a + b) == total_kib(a) + total_kib(b),
        available_kib(a + b) == available_kib(a) + available_kib(b),
    decreases b.len(),
{
    if b.len() == 0 {
        assert(a + b =~= a);
    } else {
        let b2 = b.drop_last();
        assert((a + b).drop_last() =~= a + b2);
        assert((a + b).last() == b.last());
        lemma_aggregate_concat_sum(a, b2);
    }
}

/// Every node counted is either healthy or failed.
pub proof fn lemma_nodes_partition(rs: Seq<AgentResult>)
    ensures
        healthy_count(rs) + failed_count(rs) == rs.len(),
    decreases rs.len(),
{
    if rs.len() > 0 {
        lemma_nodes_partition(rs.drop_last());
    }
}

} // verus!
