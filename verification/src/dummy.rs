//! Simulated pods for serving test data without a cluster.
use vstd::prelude::*;
use vstd::string::*;
use crate::metrics::report;
use crate::text::{decimal, push_decimal, string_of};
use rand::rngs::StdRng;
use rand::Rng;

verus! {

/// The random source `rand::rngs::StdRng`, carried through opaque: nothing is read of it.
#[verifier::external_type_specification]
#[verifier::external_body]
pub struct ExStdRng(StdRng);

/// Internal representation of pod data
#[derive(Debug, Clone)]
pub struct PodData {
    pub name: String,
    pub namespace: String,
    pub node: String,
    /// in millicores
    pub cpu_base: i32,
    pub cpu_current: i32,
    /// in Mi
    pub memory_base: i64,
    pub memory_current: i64,
}

/// The decimal spelling of an integer, with a leading `-` when negative.
pub open spec fn signed_decimal(x: int) -> Seq<char> {
    if x < 0 {
        "-"@ + decimal((-x) as nat)
    } else {
        decimal(x as nat)
    }
}

/// The decimal spelling of `n`, padded with leading zeros to at least `width` characters.
pub open spec fn zero_padded(n: nat, width: nat) -> Seq<char> {
    if decimal(n).len() < width {
        Seq::new((width - decimal(n).len()) as nat, |_i: int| '0') + decimal(n)
    } else {
        decimal(n)
    }
}

/// The namespaces simulated pods are spread over, in turn.
pub open spec fn simulated_namespace(i: nat) -> Seq<char> {
    let k = i % 4;
    if k == 0 {
        "default"@
    } else if k == 1 {
        "kube-system"@
    } else if k == 2 {
        "app-namespace"@
    } else {
        "monitoring"@
    }
}

/// The namespaces of simulated pods repeat every four pods, in the order `default`,
/// `kube-system`, `app-namespace`, `monitoring`.
pub proof fn lemma_simulated_namespace_cycle(i: nat)
    ensures
        simulated_namespace(i + 4) == simulated_namespace(i),
        i % 4 == 0 ==> simulated_namespace(i) == "default"@,
        i % 4 == 1 ==> simulated_namespace(i) == "kube-system"@,
        i % 4 == 2 ==> simulated_namespace(i) == "app-namespace"@,
        i % 4 == 3 ==> simulated_namespace(i) == "monitoring"@,
{
    assert((i + 4) % 4 == i % 4);
}

/// Appends the decimal spelling of `x`, with `-` when negative.
pub fn push_signed(out: &mut String, x: i64)
    ensures
        final(out)@ == old(out)@ + signed_decimal(x as int),
{
    if x < 0 {
        out.append("-");
        let magnitude: u64 = (-(x as i128)) as u64;
        push_decimal(out, magnitude);
        proof {
            reveal_strlit("-");
        }
        assert(final(out)@ =~= old(out)@ + signed_decimal(x as int));
    } else {
        push_decimal(out, x as u64);
    }
}

/// Appends `n` padded with leading zeros to at least `width` characters.
pub fn push_zero_padded(out: &mut String, n: u64, width: usize)
    ensures
        final(out)@ == old(out)@ + zero_padded(n as nat, width as nat),
{
    let mut digits = String::new();
    push_decimal(&mut digits, n);
    let len = digits.as_str().unicode_len();
    let ghost start = out@;
    if len < width {
        let mut k: usize = 0;
        while k < width - len
            invariant
                len < width,
                len == decimal(n as nat).len(),
                k <= width - len,
                out@ == start + Seq::new(k as nat, |_i: int| '0'),
            decreases width - len - k,
        {
            out.append("0");
            proof {
                reveal_strlit("0");
            }
            assert(out@ =~= start + Seq::new((k + 1) as nat, |_i: int| '0'));
            k = k + 1;
        }
    }
    out.append(digits.as_str());
    assert(final(out)@ =~= old(out)@ + zero_padded(n as nat, width as nat));
}

impl PodData {
    /// The `index`-th simulated pod: named `pod-<index+1, three digits>`, in the namespaces
    /// `default`, `kube-system`, `app-namespace`, `monitoring` in turn, on nodes `node-1`
    /// to `node-3` in turn, with the given base usage and no current usage yet.
    pub fn simulated(index: u64, cpu_base: i32, memory_base: i64) -> (p: PodData)
        requires
            index < u64::MAX,
        ensures
            p.name@ == "pod-"@ + zero_padded((index + 1) as nat, 3),
            p.namespace@ == simulated_namespace(index as nat),
            p.node@ == "node-"@ + decimal((index % 3 + 1) as nat),
            p.cpu_base == cpu_base,
            p.cpu_current == 0,
            p.memory_base == memory_base,
            p.memory_current == 0,
    {
        let mut name = String::new();
        name.append("pod-");
        push_zero_padded(&mut name, index + 1, 3);
        let k = index % 4;
        let namespace = if k == 0 {
            string_of("default")
        } else if k == 1 {
            string_of("kube-system")
        } else if k == 2 {
            string_of("app-namespace")
        } else {
            string_of("monitoring")
        };
        let mut node = String::new();
        node.append("node-");
        push_decimal(&mut node, index % 3 + 1);
        PodData {
            name,
            namespace,
            node,
            cpu_base,
            cpu_current: 0,
            memory_base,
            memory_current: 0,
        }
    }

    /// The pod as the metrics endpoint reports it: current CPU in millicores (`m`) and
    /// current memory in MiB (`Mi`).
    pub fn to_metrics(&self) -> (m: report::PodMetrics)
        ensures
            m.name@ == self.name@,
            m.namespace@ == self.namespace@,
            m.node@ == self.node@,
            m.cpu@ == signed_decimal(self.cpu_current as int) + "m"@,
            m.memory@ == signed_decimal(self.memory_current as int) + "Mi"@,
    {
        let mut cpu = String::new();
        push_signed(&mut cpu, self.cpu_current as i64);
        cpu.append("m");
        let mut memory = String::new();
        push_signed(&mut memory, self.memory_current);
        memory.append("Mi");
        report::PodMetrics {
            name: self.name.clone(),
            namespace: self.namespace.clone(),
            node: self.node.clone(),
            cpu,
            memory,
        }
    }
}

/// `rand::Rng::gen_range` over `lo..=hi` on a `StdRng`. In rand 0.8 it panics on an empty
/// range, which `requires` leaves out, and otherwise returns a value drawn uniformly from the
/// range. The contract states that the value lies in the range; which value it is rests on
/// chance and is left unsaid.
#[verifier::external_body]
fn draw_between(rng: &mut StdRng, lo: u64, hi: u64) -> (r: u64)
    requires
        lo <= hi,
    ensures
        lo <= r <= hi,
{
    rng.gen_range(lo..=hi)
}

/// The simulated pods of a fresh dummy server, drawn from `rng`: first their number, 40
/// to 50, then for each pod in turn a base CPU of 50 to 500 millicores and a base memory of
/// 64 to 1024 MiB. Pod `i` is `PodData::simulated(i, ..)`: named, spread over namespaces and
/// nodes in turn, with no current usage yet.
pub fn simulated_pod_table(rng: &mut StdRng) -> (v: Vec<PodData>)
    ensures
        40 <= v@.len() <= 50,
        forall|i: int|
            0 <= i < v@.len() ==> {
                let p = #[trigger] v@[i];
                &&& p.name@ == "pod-"@ + zero_padded((i + 1) as nat, 3)
                &&& p.namespace@ == simulated_namespace(i as nat)
                &&& p.node@ == "node-"@ + decimal((i % 3 + 1) as nat)
                &&& 50 <= p.cpu_base <= 500
                &&& p.cpu_current == 0
                &&& 64 <= p.memory_base <= 1024
                &&& p.memory_current == 0
            },
{
    let count = draw_between(rng, 40, 50);
    let mut v: Vec<PodData> = Vec::new();
    let mut i: u64 = 0;
    while i < count
        invariant
            40 <= count <= 50,
            i <= count,
            v@.len() == i,
            forall|j: int|
                0 <= j < i ==> {
                    let p = #[trigger] v@[j];
                    &&& p.name@ == "pod-"@ + zero_padded((j + 1) as nat, 3)
                    &&& p.namespace@ == simulated_namespace(j as nat)
                    &&& p.node@ == "node-"@ + decimal((j % 3 + 1) as nat)
                    &&& 50 <= p.cpu_base <= 500
                    &&& p.cpu_current == 0
                    &&& 64 <= p.memory_base <= 1024
                    &&& p.memory_current == 0
                },
        decreases count - i,
    {
        let cpu_base = draw_between(rng, 50, 500);
        let memory_base = draw_between(rng, 64, 1024);
        v.push(PodData::simulated(i, cpu_base as i32, memory_base as i64));
        i = i + 1;
    }
    v
}

/// Current CPU of the pods, summed.
pub open spec fn simulated_cpu(ps: Seq<PodData>) -> int
    decreases ps.len(),
{
    if ps.len() == 0 {
        0
    } else {
        simulated_cpu(ps.drop_last()) + ps.last().cpu_current
    }
}

/// Current memory of the pods, summed.
pub open spec fn simulated_memory(ps: Seq<PodData>) -> int
    decreases ps.len(),
{
    if ps.len() == 0 {
        0
    } else {
        simulated_memory(ps.drop_last()) + ps.last().memory_current
    }
}

/// The simulated totals go pod by pod, each adding its own current usage.
pub proof fn lemma_simulated_sums_step(ps: Seq<PodData>, p: PodData)
    ensures
        simulated_cpu(Seq::<PodData>::empty()) == 0,
        simulated_memory(Seq::<PodData>::empty()) == 0,
        simulated_cpu(ps.push(p)) == simulated_cpu(ps) + p.cpu_current,
        simulated_memory(ps.push(p)) == simulated_memory(ps) + p.memory_current,
{
    assert(ps.push(p).drop_last() =~= ps);
}

/// Every partial sum of the pods' current usage fits the integer type it is summed in.
pub open spec fn simulated_sums_fit(ps: Seq<PodData>) -> bool {
    forall|i: int|
        0 <= i <= ps.len() ==> i32::MIN <= #[trigger] simulated_cpu(ps.take(i)) <= i32::MAX
            && i64::MIN <= simulated_memory(ps.take(i)) <= i64::MAX
}

/// The pod totals of the simulated summary; `None` when a running sum leaves its integer type.
pub fn simulated_pod_summary(pods: &Vec<PodData>) -> (r: Option<report::PodSummary>)
    ensures
        r is Some <==> simulated_sums_fit(pods@),
        r matches Some(s) ==> {
            &&& s.count == pods@.len()
            &&& s.cpu_usage@ == signed_decimal(simulated_cpu(pods@)) + "m"@
            &&& s.memory_usage@ == signed_decimal(simulated_memory(pods@)) + "Mi"@
        },
{
    let mut cpu: i32 = 0;
    let mut memory: i64 = 0;
    let mut i: usize = 0;
    proof {
        assert(pods@.take(0) =~= Seq::<PodData>::empty());
    }
    while i < pods.len()
        invariant
            i <= pods@.len(),
            cpu == simulated_cpu(pods@.take(i as int)),
            memory == simulated_memory(pods@.take(i as int)),
            forall|j: int|
                0 <= j <= i ==> i32::MIN <= #[trigger] simulated_cpu(pods@.take(j)) <= i32::MAX
                    && i64::MIN <= simulated_memory(pods@.take(j)) <= i64::MAX,
        decreases pods@.len() - i,
    {
        proof {
            assert(pods@.take(i + 1).drop_last() =~= pods@.take(i as int));
            assert(pods@.take(i + 1).last() == pods@[i as int]);
        }
        let p = &pods[i];
        let next_cpu = cpu as i64 + p.cpu_current as i64;
        let next_memory = memory as i128 + p.memory_current as i128;
        if next_cpu < i32::MIN as i64 || next_cpu > i32::MAX as i64 || next_memory < i64::MIN as i128
            || next_memory > i64::MAX as i128 {
            assert(!(i32::MIN <= simulated_cpu(pods@.take(i + 1)) <= i32::MAX && i64::MIN
                <= simulated_memory(pods@.take(i + 1)) <= i64::MAX));
            return None;
        }
        cpu = next_cpu as i32;
        memory = next_memory as i64;
        i = i + 1;
    }
    assert(pods@.take(pods@.len() as int) =~= pods@);
    let mut cpu_usage = String::new();
    push_signed(&mut cpu_usage, cpu as i64);
    cpu_usage.append("m");
    let mut memory_usage = String::new();
    push_signed(&mut memory_usage, memory);
    memory_usage.append("Mi");
    Some(report::PodSummary { count: pods.len(), cpu_usage, memory_usage })
}

} // verus!
