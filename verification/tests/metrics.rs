use rwatch::metrics::error::MetricsError;
use rwatch::metrics::k8s_metrics::{
    ContainerMetrics, ContainerUsage, NodeCapacity, NodeMetrics, NodeUsage, PodMetrics, PodPlacement, Quantity,
};
use rwatch::metrics::resource::{cpu_float_step, memory_float_step, FloatScale};
use rwatch::metrics::nodes::NodeMetricsHandler;
use rwatch::metrics::pods::PodMetricsHandler;
use rwatch::metrics::summary::SummaryHandler;

/// The floating-point conversion of a quantity's number, as the agent makes it.
fn float_conversion(step: Option<(usize, FloatScale)>, q: &str) -> u64 {
    match step {
        None => 0,
        Some((len, scale)) => {
            let number: String = q.chars().take(len).collect();
            match number.parse::<f64>() {
                Ok(v) => match scale {
                    FloatScale::TimesThousand => (v * 1000.0) as u64,
                    FloatScale::OverThousand => (v / 1000.0) as u64,
                    FloatScale::OverBillion => (v / 1_000_000_000.0) as u64,
                    FloatScale::OverKibi => (v * (1.0 / 1024.0)) as u64,
                    FloatScale::Unit => (v * 1.0) as u64,
                    FloatScale::TimesKibi => (v * 1024.0) as u64,
                    FloatScale::TimesMebi => (v * (1024.0 * 1024.0)) as u64,
                    FloatScale::DecimalMega => (v * 0.953674) as u64,
                    FloatScale::DecimalGiga => (v * 953.674) as u64,
                },
                Err(_) => 0,
            }
        }
    }
}

fn cpu_q(q: &str) -> Quantity {
    Quantity { text: q.to_string(), float_value: float_conversion(cpu_float_step(q), q) }
}

fn memory_q(q: &str) -> Quantity {
    Quantity { text: q.to_string(), float_value: float_conversion(memory_float_step(q), q) }
}

fn node(name: &str, cpu: &str, memory: &str) -> NodeMetrics {
    NodeMetrics {
        name: name.to_string(),
        usage: NodeUsage { cpu: cpu_q(cpu), memory: memory_q(memory) },
    }
}

fn capacity(name: &str, cpu: &str, memory: &str) -> NodeCapacity {
    NodeCapacity { name: name.to_string(), cpu: cpu_q(cpu), memory: memory_q(memory) }
}

fn container(cpu: &str, memory: &str) -> ContainerMetrics {
    ContainerMetrics {
        name: "c".to_string(),
        usage: ContainerUsage { cpu: cpu_q(cpu), memory: memory_q(memory) },
    }
}

fn pod(name: &str, uid: Option<&str>, containers: Vec<ContainerMetrics>) -> PodMetrics {
    PodMetrics {
        name: Some(name.to_string()),
        namespace: Some("default".to_string()),
        uid: uid.map(|u| u.to_string()),
        containers,
    }
}

#[test]
fn node_rows_pair_usage_with_capacity() {
    let metrics = vec![node("n1", "500m", "1Gi"), node("n2", "1", "512Mi"), node("n3", "1", "1Gi")];
    let caps = vec![
        capacity("n1", "2", "4Gi"),
        capacity("n2", "0", ""),
        capacity("n1", "4", "8Gi"),
    ];
    let rows = NodeMetricsHandler::rows(&metrics, &caps).unwrap();
    assert_eq!(rows.len(), 3);
    assert_eq!(rows[0].capacity_cpu, "4");
    assert_eq!(rows[0].ratios.cpu, Some((500, 4000)));
    assert_eq!(rows[0].ratios.memory, Some((1024, 8192)));
    assert_eq!(rows[1].ratios.cpu, None);
    assert_eq!(rows[1].ratios.memory, None);
    assert_eq!(rows[2].capacity_cpu, "");
    assert_eq!(rows[2].ratios.cpu, None);
}

#[test]
fn node_rows_fail_on_first_bad_quantity() {
    let metrics = vec![node("n1", "500m", "bogus"), node("n2", "zzz", "1Gi")];
    let caps = vec![capacity("n1", "2", "4Gi"), capacity("n2", "2", "4Gi")];
    match NodeMetricsHandler::rows(&metrics, &caps) {
        Err(MetricsError::ParseError(m)) => assert_eq!(m, "Memory 'bogus': invalid digit found in string"),
        other => panic!("unexpected {:?}", other.map(|r| r.len())),
    }
}

#[test]
fn pod_reports_sum_containers_and_find_nodes() {
    let metrics = vec![
        pod("p1", Some("u1"), vec![container("100m", "100Mi"), container("900m", "924Mi"), container("bad", "x")]),
        pod("p2", None, vec![]),
    ];
    let placements = vec![
        PodPlacement { uid: Some("u1".to_string()), node_name: Some("node-a".to_string()) },
        PodPlacement { uid: Some("u1".to_string()), node_name: None },
    ];
    let reports = PodMetricsHandler::reports(&metrics, &placements).unwrap();
    assert_eq!(reports[0].name, "p1");
    assert_eq!(reports[0].node, "node-a");
    assert_eq!(reports[0].cpu, "1");
    assert_eq!(reports[0].memory, "1Gi");
    assert_eq!(reports[1].node, "");
    assert_eq!(reports[1].cpu, "0m");
    assert_eq!(reports[1].memory, "0Mi");
}

#[test]
fn pod_reports_detect_overflow() {
    let metrics = vec![pod("p", None, vec![container("inf", "1Mi"), container("1m", "1Mi")])];
    assert!(PodMetricsHandler::reports(&metrics, &vec![]).is_none());
}

#[test]
fn summary_totals_and_ratios() {
    let pods = vec![
        pod("p1", None, vec![container("250m", "256Mi")]),
        pod("p2", None, vec![container("750m", "768Mi"), container("nope", "1Gi")]),
    ];
    let summary = SummaryHandler::pod_summary(&pods).unwrap();
    assert_eq!(summary.count, 2);
    assert_eq!(summary.cpu_usage, "1");
    assert_eq!(summary.memory_usage, "2Gi");

    let metrics = vec![node("n1", "1", "1Gi"), node("missing", "1", "1Gi"), node("n2", "x", "1Gi")];
    let caps = vec![capacity("n1", "4", "4Gi"), capacity("n2", "4", "0")];
    let ratios = SummaryHandler::node_ratios(&metrics, &caps);
    assert_eq!(ratios[0].cpu, Some((1000, 4000)));
    assert_eq!(ratios[0].memory, Some((1024, 4096)));
    assert_eq!(ratios[1].cpu, None);
    assert_eq!(ratios[2].cpu, None);
    assert_eq!(ratios[2].memory, None);
}

#[test]
fn error_messages_and_status() {
    let e = MetricsError::MetricsServerUnavailable("metrics-server not found".to_string());
    assert_eq!(e.status_code(), 503);
    assert_eq!(e.message(), "Metrics server unavailable: metrics-server not found");
    let e = MetricsError::ParseError("CPU 'x': invalid float literal".to_string());
    assert_eq!(e.status_code(), 500);
    assert_eq!(e.message(), "Failed to parse resource quantity: CPU 'x': invalid float literal");
    assert_eq!(MetricsError::K8sClient("k".to_string()).message(), "Kubernetes client error: k");
    assert_eq!(MetricsError::Internal("i".to_string()).message(), "Internal error: i");
}

#[test]
fn list_failures() {
    let e = MetricsError::from_list_failure(true, "404".to_string());
    assert_eq!(e.message(), "Metrics server unavailable: metrics-server not found");
    assert_eq!(e.status_code(), 503);
    let e = MetricsError::from_list_failure(false, "boom".to_string());
    assert_eq!(e.message(), "Kubernetes client error: boom");
    assert_eq!(e.status_code(), 500);
}
