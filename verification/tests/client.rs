use rwatch::client::{aggregate_fits, aggregate_results, AgentData, AgentResult, AggregatedMetrics};
use rwatch::health::HealthResponse;
use rwatch::memory::Memory;

#[test]
fn test_agent_result_success() {
    let data = AgentData {
        url: "http://localhost:3000".to_string(),
        health: HealthResponse::new("up".to_string(), 100, "0.1.0".to_string()),
        memory: Memory::new(16000000, 0, 0, 8000000),
    };
    let result = AgentResult::Success(data);

    assert!(result.is_success());
    assert_eq!(result.url(), "http://localhost:3000");
    assert!(result.data().is_some());
}

#[test]
fn test_agent_result_failure() {
    let result = AgentResult::Failure {
        url: "http://localhost:3000".to_string(),
        error: "Connection refused".to_string(),
    };

    assert!(!result.is_success());
    assert_eq!(result.url(), "http://localhost:3000");
    assert!(result.data().is_none());
}

#[test]
fn test_aggregate_metrics() {
    let results = vec![
        AgentResult::Success(AgentData {
            url: "http://agent1:3000".to_string(),
            health: HealthResponse::new("up".to_string(), 100, "0.1.0".to_string()),
            memory: Memory::new(16000000, 0, 0, 8000000),
        }),
        AgentResult::Success(AgentData {
            url: "http://agent2:3000".to_string(),
            health: HealthResponse::new("up".to_string(), 200, "0.1.0".to_string()),
            memory: Memory::new(16000000, 0, 0, 4000000),
        }),
        AgentResult::Failure {
            url: "http://agent3:3000".to_string(),
            error: "Timeout".to_string(),
        },
    ];

    let metrics = aggregate_results(&results);

    assert_eq!(metrics.total_nodes, 3);
    assert_eq!(metrics.healthy_nodes, 2);
    assert_eq!(metrics.failed_nodes, 1);
    assert_eq!(metrics.total_memory_bytes, 16000000 * 1024 * 2);
    assert_eq!(metrics.available_memory_bytes, (8000000 + 4000000) * 1024);
}

#[test]
fn aggregate_of_nothing_is_empty() {
    let metrics = aggregate_results(&[]);
    assert_eq!(metrics.total_nodes, 0);
    assert_eq!(metrics.healthy_nodes + metrics.failed_nodes, 0);
    assert_eq!(metrics.total_memory_bytes, 0);
    assert_eq!(metrics.used_memory_bytes(), 0);
}

#[test]
fn used_memory_never_negative() {
    let mut m = AggregatedMetrics::default();
    m.total_memory_bytes = 100;
    m.available_memory_bytes = 30;
    assert_eq!(m.used_memory_bytes(), 70);
    m.available_memory_bytes = 300;
    assert_eq!(m.used_memory_bytes(), 0);
}

#[test]
fn aggregate_overflow_is_detected() {
    let huge = AgentResult::Success(AgentData {
        url: "u".to_string(),
        health: HealthResponse::healthy(1),
        memory: Memory::new(u64::MAX / 1024, 0, 0, 0),
    });
    assert!(aggregate_fits(&[huge.clone()]));
    assert!(!aggregate_fits(&[huge.clone(), huge]));
}

#[test]
fn healthy_response() {
    let h = HealthResponse::healthy(42);
    assert_eq!(h.status, "up");
    assert_eq!(h.uptime, 42);
    assert_eq!(h.version, "0.1.0");
}

#[test]
fn agent_result_from_outcome() {
    let url = "http://a:1".to_string();
    let failed = rwatch::client::agent_result(&url, Err("Timeout".to_string()));
    assert!(!failed.is_success());
    assert_eq!(failed.url(), "http://a:1");
    let data = AgentData {
        url: url.clone(),
        health: HealthResponse::healthy(3),
        memory: Memory::new(1, 0, 0, 1),
    };
    let ok = rwatch::client::agent_result(&url, Ok(data));
    assert!(ok.is_success());
}
