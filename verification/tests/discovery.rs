use rwatch::discovery::{Discovery, EnvDiscovery, KubernetesDiscovery, StaticDiscovery};

#[test]
fn test_static_discovery() {
    let discovery = StaticDiscovery::from_urls(&["http://agent1:3000", "http://agent2:3000"]);

    let agents = discovery.discover();
    assert_eq!(agents.len(), 2);
}

#[test]
fn test_discovery_enum() {
    let discovery = Discovery::static_discovery(vec![
        "http://agent1:3000".to_string(),
        "http://agent2:3000".to_string(),
    ]);

    let agents = discovery.discover(Vec::new());
    assert_eq!(agents.len(), 2);
}

#[test]
fn test_kubernetes_discovery() {
    let discovery = KubernetesDiscovery::new("rwatch", "rwatch-agent", 3000);
    assert_eq!(discovery.service_dns(), "rwatch-agent.rwatch");

    // Currently returns empty list (placeholder implementation)
    let agents = discovery.discover();
    assert!(agents.is_empty());
}

#[test]
fn env_discovery_names_variables_and_agents() {
    let discovery = EnvDiscovery::default_prefix();
    assert_eq!(discovery.var_name(0), "RWATCH_AGENT_0");
    assert_eq!(discovery.var_name(12), "RWATCH_AGENT_12");
    let agents = discovery.agents_from(vec!["http://a:1".to_string(), "http://b:2".to_string()]);
    assert_eq!(agents.urls(), vec!["http://a:1", "http://b:2"]);
    assert_eq!(agents.agents[1].display_name(), "agent-1");
}

#[test]
fn discovery_enum_variants() {
    let env = Discovery::env("PFX");
    let agents = env.discover(vec!["http://x:1".to_string()]);
    assert_eq!(agents.agents[0].name, Some("agent-0".to_string()));
    let k8s = Discovery::kubernetes("ns", "svc", 80);
    assert!(k8s.discover(vec!["ignored".to_string()]).is_empty());
    let from_static: Discovery = StaticDiscovery::new(vec!["http://s:1".to_string()]).into();
    assert_eq!(from_static.discover(Vec::new()).urls(), vec!["http://s:1"]);
}
