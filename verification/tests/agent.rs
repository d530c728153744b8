use rwatch::agent::{AgentConfig, AgentList};

#[test]
fn test_agent_config() {
    let config = AgentConfig::new("http://localhost:3000")
        .with_name("local-agent")
        .with_label("env", "dev");

    assert_eq!(config.url, "http://localhost:3000");
    assert_eq!(config.name, Some("local-agent".to_string()));
    assert_eq!(config.display_name(), "local-agent");
    assert_eq!(config.labels.len(), 1);
}

#[test]
fn test_agent_list() {
    let mut list = AgentList::new();
    list.add(AgentConfig::new("http://agent1:3000"));
    list.add(AgentConfig::new("http://agent2:3000"));

    assert_eq!(list.len(), 2);
    assert_eq!(
        list.urls(),
        vec!["http://agent1:3000", "http://agent2:3000"]
    );
}

#[test]
fn display_name_falls_back_to_url() {
    let config = AgentConfig::new("http://node:3000");
    assert_eq!(config.display_name(), "http://node:3000");
}

#[test]
fn labels_keep_their_order() {
    let config = AgentConfig::new("u").with_label("a", "1").with_label("b", "2");
    assert_eq!(
        config.labels,
        vec![("a".to_string(), "1".to_string()), ("b".to_string(), "2".to_string())]
    );
}

#[test]
fn empty_list() {
    let list = AgentList::new();
    assert!(list.is_empty());
    assert_eq!(list.len(), 0);
    assert!(list.urls().is_empty());
    let from_vec = AgentList::from(vec![AgentConfig::new("x")]);
    assert!(!from_vec.is_empty());
}
