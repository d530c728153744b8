use rand::rngs::StdRng;
use rand::SeedableRng;
use rwatch::dummy::{simulated_pod_summary, simulated_pod_table, PodData};

#[test]
fn simulated_pods_are_named_and_spread() {
    let p = PodData::simulated(0, 100, 256);
    assert_eq!(p.name, "pod-001");
    assert_eq!(p.namespace, "default");
    assert_eq!(p.node, "node-1");
    let p = PodData::simulated(41, 100, 256);
    assert_eq!(p.name, "pod-042");
    assert_eq!(p.namespace, "kube-system");
    assert_eq!(p.node, "node-3");
    assert_eq!(PodData::simulated(999, 1, 1).name, "pod-1000");
}

#[test]
fn simulated_pod_reports_and_summary() {
    let mut a = PodData::simulated(0, 100, 256);
    a.cpu_current = 120;
    a.memory_current = 300;
    let mut b = PodData::simulated(1, 100, 256);
    b.cpu_current = -20;
    b.memory_current = 12;
    let m = a.to_metrics();
    assert_eq!(m.cpu, "120m");
    assert_eq!(m.memory, "300Mi");
    assert_eq!(b.to_metrics().cpu, "-20m");
    let s = simulated_pod_summary(&vec![a, b]).unwrap();
    assert_eq!(s.count, 2);
    assert_eq!(s.cpu_usage, "100m");
    assert_eq!(s.memory_usage, "312Mi");
    let mut c = PodData::simulated(2, 1, 1);
    c.cpu_current = i32::MAX;
    let mut d = PodData::simulated(3, 1, 1);
    d.cpu_current = 1;
    assert!(simulated_pod_summary(&vec![c, d]).is_none());
}

#[test]
fn simulated_pod_table_draws_in_range() {
    for seed in [1u64, 2, 3, 42] {
        let mut rng = StdRng::seed_from_u64(seed);
        let pods = simulated_pod_table(&mut rng);
        assert!(pods.len() >= 40 && pods.len() <= 50);
        for (i, p) in pods.iter().enumerate() {
            assert_eq!(p.name, format!("pod-{:03}", i + 1));
            assert_eq!(p.node, format!("node-{}", i % 3 + 1));
            assert!(p.cpu_base >= 50 && p.cpu_base <= 500);
            assert!(p.memory_base >= 64 && p.memory_base <= 1024);
            assert_eq!((p.cpu_current, p.memory_current), (0, 0));
        }
        assert_eq!(pods[2].namespace, "app-namespace");
        assert_eq!(pods[3].namespace, "monitoring");
        assert!(pods.iter().any(|p| p.cpu_base != 50));
        assert!(pods.iter().any(|p| p.memory_base != 64));
    }
}
